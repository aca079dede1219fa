//! The command context and the dispatcher.
//!
//! The context is the bundle of shared state that every command works on:
//! the region cache behind its lock, the flags that tasks raise for each
//! other, the histories of the game's console, and the directories. The
//! dispatcher says of each command whether it is handed to the worker pool
//! or runs at once.

use crate::cli::{Command, Filters};
use crate::utils::caching::Cache;
use std::path::PathBuf;
use std::sync::atomic::AtomicBool;
use std::sync::atomic::Ordering;
use std::sync::Arc;
use tokio::runtime::Handle;
use tokio::sync::Mutex;
use tokio::task::{JoinError, JoinHandle};
use vstd::prelude::*;
use vstd::string::*;

verus! {

/// `tokio::task::JoinHandle`: the handle of a task on the worker pool. It
/// is carried, never looked into.
#[verifier::external_type_specification]
#[verifier::external_body]
#[verifier::reject_recursive_types(T)]
pub struct ExJoinHandle<T>(JoinHandle<T>);

/// `tokio::task::JoinError`: why a task on the worker pool did not finish.
/// It is part of what a `JoinHandle` stands for, and is never looked into.
#[verifier::external_type_specification]
#[verifier::external_body]
pub struct ExJoinError(JoinError);

/// `tokio::sync::Mutex`: the lock around a piece of shared state. It is
/// carried, never looked into.
#[verifier::external_type_specification]
#[verifier::external_body]
#[verifier::reject_recursive_types(T)]
pub struct ExMutex<T: ?Sized>(Mutex<T>);

/// `tokio::runtime::Handle`: the worker pool. It is carried, never looked
/// into.
#[verifier::external_type_specification]
#[verifier::external_body]
pub struct ExHandle(Handle);

/// `std::path::PathBuf`: a directory. It is carried, never looked into.
#[verifier::external_type_specification]
#[verifier::external_body]
pub struct ExPathBuf(PathBuf);

/// `Arc::clone` gives one more handle to the same shared value.
#[verifier::external_body]
fn share<T: ?Sized>(handle: &Arc<T>) -> (copy: Arc<T>)
    ensures
        copy == *handle,
{
    Arc::clone(handle)
}

/// `tokio::sync::Mutex::new` puts a value behind a lock of its own.
#[verifier::external_body]
fn guard<T>(value: T) -> (lock: Mutex<T>) {
    Mutex::new(value)
}

/// A server that the game's console has named: its name as the console
/// wrote it, and in normal form.
#[derive(Debug, Clone, PartialEq, Eq)]
pub struct HostName {
    pub parsed: String,
    pub raw: String,
}

/// What a command leaves for the prompt to wait on.
pub struct CommandHandle {
    /// The task that was handed to the worker pool, if one was.
    pub handle: Option<JoinHandle<()>>,
    /// Whether the prompt ends.
    pub exit: bool,
}

impl Default for CommandHandle {
    fn default() -> (handle: CommandHandle)
        ensures
            handle.handle is None,
            !handle.exit,
    {
        CommandHandle { handle: None, exit: false }
    }
}

impl CommandHandle {
    /// The prompt ends.
    pub fn exit() -> (handle: CommandHandle)
        ensures
            handle.handle is None,
            handle.exit,
    {
        CommandHandle { handle: None, exit: true }
    }

    /// The prompt goes on once `handle` is done.
    pub fn with_handle(handle: JoinHandle<()>) -> (out: CommandHandle)
        ensures
            out.handle == Some(handle),
            !out.exit,
    {
        CommandHandle { handle: Some(handle), exit: false }
    }
}

/// The message of [`CommandContext::check_h2m_connection`].
pub const H2M_CONNECTION_CLOSED: &'static str =
    "H2M connection closed, restart H2M using the 'launch' command";

/// The shared state that every command works on. `H` is the handle of the
/// game's console.
pub struct CommandContext<'a, H> {
    cache: Arc<Mutex<Cache>>,
    exe_dir: Arc<PathBuf>,
    cache_needs_update: Arc<AtomicBool>,
    command_runtime: &'a Handle,
    connected_to_pseudoterminal: Arc<AtomicBool>,
    h2m_console_history: Arc<Mutex<Vec<String>>>,
    h2m_server_connection_history: Arc<Mutex<Vec<HostName>>>,
    h2m_handle: Option<Arc<H>>,
    command_entered: bool,
    local_dir: Option<Arc<PathBuf>>,
}

impl<'a, H> CommandContext<'a, H> {
    /// The lock that guards the region cache.
    pub closed spec fn cache_lock(&self) -> Arc<Mutex<Cache>> {
        self.cache
    }

    /// The game's directory.
    pub closed spec fn game_dir(&self) -> Arc<PathBuf> {
        self.exe_dir
    }

    /// The flag that says that the cache has to be written again.
    pub closed spec fn dirty_flag(&self) -> Arc<AtomicBool> {
        self.cache_needs_update
    }

    /// The worker pool.
    pub closed spec fn runtime(&self) -> &'a Handle {
        self.command_runtime
    }

    /// The flag that says that the game's console is connected.
    pub closed spec fn connected_flag(&self) -> Arc<AtomicBool> {
        self.connected_to_pseudoterminal
    }

    /// The lock that guards what the game's console has printed.
    pub closed spec fn console_history(&self) -> Arc<Mutex<Vec<String>>> {
        self.h2m_console_history
    }

    /// The lock that guards the servers that the console has named.
    pub closed spec fn connection_history(&self) -> Arc<Mutex<Vec<HostName>>> {
        self.h2m_server_connection_history
    }

    /// The handle of the game's console, while one is attached.
    pub closed spec fn console(&self) -> Option<Arc<H>> {
        self.h2m_handle
    }

    /// Whether a command was entered and not yet handled.
    pub closed spec fn entered(&self) -> bool {
        self.command_entered
    }

    /// The directory that holds the cache and the log, if there is one.
    pub closed spec fn local(&self) -> Option<Arc<PathBuf>> {
        self.local_dir
    }

    /// The shared handles are the same in `self` and `other`: the cache,
    /// the flags, the histories, the worker pool and the game's directory.
    pub open spec fn same_shared(&self, other: &Self) -> bool {
        &&& self.cache_lock() == other.cache_lock()
        &&& self.game_dir() == other.game_dir()
        &&& self.dirty_flag() == other.dirty_flag()
        &&& self.runtime() == other.runtime()
        &&& self.connected_flag() == other.connected_flag()
        &&& self.console_history() == other.console_history()
        &&& self.connection_history() == other.connection_history()
    }

    /// One more handle to the lock that guards the region cache.
    pub fn cache(&self) -> (cache: Arc<Mutex<Cache>>)
        ensures
            cache == self.cache_lock(),
    {
        share(&self.cache)
    }

    /// One more handle to the game's directory.
    pub fn exe_dir(&self) -> (exe_dir: Arc<PathBuf>)
        ensures
            exe_dir == self.game_dir(),
    {
        share(&self.exe_dir)
    }

    /// One more handle to the flag that says that the cache has to be
    /// written again.
    pub fn cache_needs_update(&self) -> (flag: Arc<AtomicBool>)
        ensures
            flag == self.dirty_flag(),
    {
        share(&self.cache_needs_update)
    }

    /// The worker pool.
    pub fn command_runtime(&self) -> (runtime: &Handle)
        ensures
            runtime == self.runtime(),
    {
        self.command_runtime
    }

    /// Looks whether the game's console is still connected. Where it is
    /// not, the handle of the console is let go of, and the user is told to
    /// launch the game again.
    pub fn check_h2m_connection(&mut self) -> (connection: Result<(), &'static str>)
        ensures
            final(self).same_shared(old(self)),
            final(self).entered() == old(self).entered(),
            final(self).local() == old(self).local(),
            connection is Ok ==> final(self).console() == old(self).console(),
            connection matches Err(message) ==> final(self).console() is None && message@
                == H2M_CONNECTION_CLOSED@,
    {
        let connected = self.connected_to_pseudoterminal.load(Ordering::Relaxed);
        self.connection_checked(connected)
    }

    /// Acts on a look at the flag that says that the game's console is
    /// connected; `connected` is what the flag said. A console that is
    /// connected stays attached. One that is not is let go of, and the user
    /// is told to launch the game again.
    pub fn connection_checked(&mut self, connected: bool) -> (connection: Result<
        (),
        &'static str,
    >)
        ensures
            final(self).same_shared(old(self)),
            final(self).entered() == old(self).entered(),
            final(self).local() == old(self).local(),
            if connected {
                connection is Ok && final(self).console() == old(self).console()
            } else {
                &&& connection is Err
                &&& connection->Err_0@ == H2M_CONNECTION_CLOSED@
                &&& final(self).console() is None
            },
    {
        if !connected {
            self.h2m_disconnected();
            return Err(H2M_CONNECTION_CLOSED);
        }
        Ok(())
    }

    /// One more handle to the flag that says that the game's console is
    /// connected.
    pub fn connected_to_pseudoterminal(&self) -> (flag: Arc<AtomicBool>)
        ensures
            flag == self.connected_flag(),
    {
        share(&self.connected_to_pseudoterminal)
    }

    /// One more handle to the directory that holds the cache and the log,
    /// if there is one.
    pub fn local_dir(&self) -> (local_dir: Option<Arc<PathBuf>>)
        ensures
            local_dir == self.local(),
    {
        match &self.local_dir {
            Some(dir) => Some(share(dir)),
            None => None,
        }
    }

    /// Names the directory that holds the cache and the log.
    pub fn update_local_dir(&mut self, local_dir: PathBuf)
        ensures
            final(self).local() == Some(Arc::new(local_dir)),
            final(self).same_shared(old(self)),
            final(self).console() == old(self).console(),
            final(self).entered() == old(self).entered(),
    {
        self.local_dir = Some(Arc::new(local_dir))
    }

    /// One more handle to the lock that guards what the game's console has
    /// printed.
    pub fn h2m_console_history(&self) -> (history: Arc<Mutex<Vec<String>>>)
        ensures
            history == self.console_history(),
    {
        share(&self.h2m_console_history)
    }

    /// One more handle to the lock that guards the servers that the console
    /// has named.
    pub fn h2m_server_connection_history(&self) -> (history: Arc<Mutex<Vec<HostName>>>)
        ensures
            history == self.connection_history(),
    {
        share(&self.h2m_server_connection_history)
    }

    /// One more handle to the game's console, while one is attached.
    pub fn h2m_handle(&self) -> (handle: Option<Arc<H>>)
        ensures
            handle == self.console(),
    {
        match &self.h2m_handle {
            Some(handle) => Some(share(handle)),
            None => None,
        }
    }

    /// Lets go of the handle of the game's console.
    pub fn h2m_disconnected(&mut self)
        ensures
            final(self).console() is None,
            final(self).same_shared(old(self)),
            final(self).entered() == old(self).entered(),
            final(self).local() == old(self).local(),
    {
        self.h2m_handle = None
    }

    /// Attaches the game's console: raises the flag that says that it is
    /// connected, and keeps its handle.
    pub fn set_listener(&mut self, handle: H)
        ensures
            final(self).console() == Some(Arc::new(handle)),
            final(self).same_shared(old(self)),
            final(self).entered() == old(self).entered(),
            final(self).local() == old(self).local(),
    {
        self.connected_to_pseudoterminal.store(true, Ordering::SeqCst);
        self.h2m_handle = Some(Arc::new(handle))
    }

    /// Whether a command was entered and not yet handled.
    pub fn was_command_entered(&self) -> (entered: bool)
        ensures
            entered == self.entered(),
    {
        self.command_entered
    }

    /// Notes that a command was entered.
    pub fn command_entered(&mut self)
        ensures
            final(self).entered(),
            final(self).same_shared(old(self)),
            final(self).console() == old(self).console(),
            final(self).local() == old(self).local(),
    {
        self.command_entered = true
    }

    /// Notes that the command that was entered is handled.
    pub fn command_handled(&mut self)
        ensures
            !final(self).entered(),
            final(self).same_shared(old(self)),
            final(self).console() == old(self).console(),
            final(self).local() == old(self).local(),
    {
        self.command_entered = false
    }
}

/// Collects what a [`CommandContext`] is made of.
pub struct CommandContextBuilder<'a> {
    cache: Option<Arc<Mutex<Cache>>>,
    exe_dir: Option<Arc<PathBuf>>,
    command_runtime: Option<&'a Handle>,
    local_dir: Option<Arc<PathBuf>>,
    h2m_server_connection_history: Option<Arc<Mutex<Vec<HostName>>>>,
}

impl<'a> Default for CommandContextBuilder<'a> {
    fn default() -> (builder: Self)
        ensures
            builder.cache_lock() is None,
            builder.game_dir() is None,
            builder.runtime() is None,
            builder.local() is None,
            builder.connection_history() is None,
    {
        CommandContextBuilder {
            cache: None,
            exe_dir: None,
            command_runtime: None,
            local_dir: None,
            h2m_server_connection_history: None,
        }
    }
}

impl<'a> CommandContextBuilder<'a> {
    /// The lock that guards the region cache, once a cache was given.
    pub closed spec fn cache_lock(&self) -> Option<Arc<Mutex<Cache>>> {
        self.cache
    }

    /// The game's directory, once it was given.
    pub closed spec fn game_dir(&self) -> Option<Arc<PathBuf>> {
        self.exe_dir
    }

    /// The worker pool, once it was given.
    pub closed spec fn runtime(&self) -> Option<&'a Handle> {
        self.command_runtime
    }

    /// The directory that holds the cache and the log, if one was given.
    pub closed spec fn local(&self) -> Option<Arc<PathBuf>> {
        self.local_dir
    }

    /// The lock that guards the servers that the console has named, once
    /// they were given.
    pub closed spec fn connection_history(&self) -> Option<Arc<Mutex<Vec<HostName>>>> {
        self.h2m_server_connection_history
    }

    /// A builder that was given nothing yet.
    pub fn new() -> (builder: Self)
        ensures
            builder.cache_lock() is None,
            builder.game_dir() is None,
            builder.runtime() is None,
            builder.local() is None,
            builder.connection_history() is None,
    {
        CommandContextBuilder::default()
    }

    /// Gives the region cache, which gets a lock of its own.
    pub fn cache(self, cache: Cache) -> (builder: Self)
        ensures
            builder.cache_lock() is Some,
            builder.game_dir() == self.game_dir(),
            builder.runtime() == self.runtime(),
            builder.local() == self.local(),
            builder.connection_history() == self.connection_history(),
    {
        let mut builder = self;
        builder.cache = Some(Arc::new(guard(cache)));
        builder
    }

    /// Gives the game's directory.
    pub fn exe_dir(self, exe_dir: PathBuf) -> (builder: Self)
        ensures
            builder.game_dir() == Some(Arc::new(exe_dir)),
            builder.cache_lock() == self.cache_lock(),
            builder.runtime() == self.runtime(),
            builder.local() == self.local(),
            builder.connection_history() == self.connection_history(),
    {
        let mut builder = self;
        builder.exe_dir = Some(Arc::new(exe_dir));
        builder
    }

    /// Gives the worker pool.
    pub fn command_runtime(self, command_runtime: &'a Handle) -> (builder: Self)
        ensures
            builder.runtime() == Some(command_runtime),
            builder.cache_lock() == self.cache_lock(),
            builder.game_dir() == self.game_dir(),
            builder.local() == self.local(),
            builder.connection_history() == self.connection_history(),
    {
        let mut builder = self;
        builder.command_runtime = Some(command_runtime);
        builder
    }

    /// Gives the directory that holds the cache and the log, or says that
    /// there is none.
    pub fn local_dir(self, local_dir: Option<PathBuf>) -> (builder: Self)
        ensures
            builder.local() == match local_dir {
                Some(dir) => Some(Arc::new(dir)),
                None => None,
            },
            builder.cache_lock() == self.cache_lock(),
            builder.game_dir() == self.game_dir(),
            builder.runtime() == self.runtime(),
            builder.connection_history() == self.connection_history(),
    {
        let mut builder = self;
        builder.local_dir = match local_dir {
            Some(dir) => Some(Arc::new(dir)),
            None => None,
        };
        builder
    }

    /// Gives the servers that the console has named so far, which get a
    /// lock of their own.
    pub fn h2m_server_connection_history(
        self,
        h2m_server_connection_history: Vec<HostName>,
    ) -> (builder: Self)
        ensures
            builder.connection_history() is Some,
            builder.cache_lock() == self.cache_lock(),
            builder.game_dir() == self.game_dir(),
            builder.runtime() == self.runtime(),
            builder.local() == self.local(),
    {
        let mut builder = self;
        builder.h2m_server_connection_history = Some(
            Arc::new(guard(h2m_server_connection_history)),
        );
        builder
    }

    /// What `build` says where something that a context needs is missing:
    /// the first of the cache, the game's directory and the worker pool.
    pub open spec fn missing(&self) -> Option<Seq<char>> {
        if self.cache_lock() is None {
            Some("cache is required"@)
        } else if self.game_dir() is None {
            Some("exe_dir is required"@)
        } else if self.runtime() is None {
            Some("command_runtime is required"@)
        } else {
            None
        }
    }

    /// Makes the context. The cache, the game's directory and the worker
    /// pool are needed. The new context has no console attached and no
    /// command entered; its flags are new and down, its console history is
    /// new and empty, and so is its history of servers where none was
    /// given.
    pub fn build<H>(self) -> (context: Result<CommandContext<'a, H>, &'static str>)
        ensures
            match self.missing() {
                Some(message) => context matches Err(said) && said@ == message,
                None => {
                    &&& context matches Ok(made)
                    &&& Some(made.cache_lock()) == self.cache_lock()
                    &&& Some(made.game_dir()) == self.game_dir()
                    &&& Some(made.runtime()) == self.runtime()
                    &&& made.local() == self.local()
                    &&& (self.connection_history() matches Some(history) ==> made.connection_history()
                        == history)
                    &&& made.console() is None
                    &&& !made.entered()
                },
            },
    {
        let cache = match self.cache {
            Some(cache) => cache,
            None => {
                return Err("cache is required");
            },
        };
        let exe_dir = match self.exe_dir {
            Some(exe_dir) => exe_dir,
            None => {
                return Err("exe_dir is required");
            },
        };
        let command_runtime = match self.command_runtime {
            Some(command_runtime) => command_runtime,
            None => {
                return Err("command_runtime is required");
            },
        };
        let h2m_server_connection_history = match self.h2m_server_connection_history {
            Some(history) => history,
            None => Arc::new(guard(Vec::new())),
        };
        Ok(
            CommandContext {
                cache,
                exe_dir,
                command_runtime,
                h2m_server_connection_history,
                cache_needs_update: Arc::new(AtomicBool::new(false)),
                h2m_console_history: Arc::new(guard(Vec::new())),
                connected_to_pseudoterminal: Arc::new(AtomicBool::new(false)),
                local_dir: self.local_dir,
                h2m_handle: None,
                command_entered: false,
            },
        )
    }
}

/// `shellwords::MismatchedQuotes`: the error of a line with a quote that is
/// never closed.
#[verifier::external_type_specification]
#[verifier::external_body]
pub struct ExMismatchedQuotes(shellwords::MismatchedQuotes);

/// What `shellwords::split` makes of a line: its words by the rules of the
/// Bourne shell, or nothing where a quote is never closed.
pub uninterp spec fn shell_words(line: Seq<char>) -> Option<Seq<Seq<char>>>;

/// `shellwords::split` cuts a line into words as the Bourne shell does, and
/// fails on a quote that is never closed.
#[verifier::external_body]
fn split_words(line: &str) -> (words: Result<Vec<String>, shellwords::MismatchedQuotes>)
    ensures
        match shell_words(line@) {
            Some(cut) => words matches Ok(list) && list.deep_view() == cut,
            None => words is Err,
        },
{
    shellwords::split(line)
}

/// Why a line is no command.
#[derive(Debug, Clone, Copy, PartialEq, Eq, Structural)]
pub enum CommandParse {
    /// A quote is never closed.
    MismatchedQuotes,
}

impl CommandParse {
    /// What the error says, for the log.
    pub fn message(&self) -> (message: &'static str)
        ensures
            message@ == "Mismatched quotes"@,
    {
        match self {
            CommandParse::MismatchedQuotes => "Mismatched quotes",
        }
    }
}

/// The words of a command as the argument parser wants them: behind an
/// empty word, which stands where a program's name would.
pub fn command_tokens(user_args: Vec<String>) -> (input_tokens: Vec<String>)
    ensures
        input_tokens.deep_view() == seq![Seq::<char>::empty()] + user_args.deep_view(),
{
    let ghost words = user_args.deep_view();
    let mut user_args = user_args;
    let mut input_tokens: Vec<String> = Vec::new();
    input_tokens.push(String::new());
    assert(input_tokens.deep_view() == seq![Seq::<char>::empty()]);
    let ghost head = input_tokens.deep_view();
    input_tokens.append(&mut user_args);
    assert(input_tokens.deep_view() == head + words);
    input_tokens
}

/// Cuts a line of the prompt into the words that the argument parser gets.
/// A line with a quote that is never closed is no command.
pub fn split_line(line: &str) -> (input_tokens: Result<Vec<String>, CommandParse>)
    ensures
        match shell_words(line@) {
            Some(cut) => input_tokens matches Ok(list) && list.deep_view() == seq![
                Seq::<char>::empty(),
            ] + cut,
            None => input_tokens == Err::<Vec<String>, CommandParse>(
                CommandParse::MismatchedQuotes,
            ),
        },
{
    match split_words(line) {
        Ok(user_args) => Ok(command_tokens(user_args)),
        Err(_) => Err(CommandParse::MismatchedQuotes),
    }
}

/// Work that is handed to the worker pool; the prompt gets a handle to it
/// at once.
#[derive(Debug, PartialEq, Eq)]
pub enum Job {
    /// Build the favorites list by these criteria.
    BuildFavorites(Filters),
    /// Resolve every host anew and replace the region cache.
    RebuildCache,
}

/// Work that is done at once.
#[derive(Debug, Clone, Copy, PartialEq, Eq, Structural)]
pub enum Action {
    Reconnect,
    Launch,
    DisplayLogs,
    OpenGameDir,
    OpenLocalDir,
}

/// What the prompt does with a line.
#[derive(Debug, PartialEq, Eq)]
pub enum Dispatch {
    /// Hand the job to the worker pool.
    Spawn(Job),
    /// Do it now.
    Run(Action),
    /// Leave.
    Exit,
    /// The line is no command: say how commands are written, and ask again.
    Usage,
}

/// What the prompt does with a command. A favorites build and a rebuild of
/// the cache are handed to the worker pool; a favorites build without
/// criteria takes the default ones. `quit` ends the prompt. Every other
/// command is done at once.
pub open spec fn dispatch_of(command: Command) -> Dispatch {
    match command {
        Command::Filter { args: Some(filters) } => Dispatch::Spawn(Job::BuildFavorites(filters)),
        Command::Filter { args: None } => Dispatch::Spawn(
            Job::BuildFavorites(
                Filters {
                    limit: None,
                    player_min: None,
                    team_size_max: None,
                    includes: None,
                    excludes: None,
                    region: None,
                },
            ),
        ),
        Command::UpdateCache => Dispatch::Spawn(Job::RebuildCache),
        Command::Reconnect => Dispatch::Run(Action::Reconnect),
        Command::Launch => Dispatch::Run(Action::Launch),
        Command::DisplayLogs => Dispatch::Run(Action::DisplayLogs),
        Command::GameDir => Dispatch::Run(Action::OpenGameDir),
        Command::LocalEnv => Dispatch::Run(Action::OpenLocalDir),
        Command::Quit => Dispatch::Exit,
    }
}

/// Says what the prompt does with a command.
pub fn dispatch(command: Command) -> (plan: Dispatch)
    ensures
        plan == dispatch_of(command),
{
    match command {
        Command::Filter { args } => {
            let filters = match args {
                Some(filters) => filters,
                None => Filters::default(),
            };
            Dispatch::Spawn(Job::BuildFavorites(filters))
        },
        Command::UpdateCache => Dispatch::Spawn(Job::RebuildCache),
        Command::Reconnect => Dispatch::Run(Action::Reconnect),
        Command::Launch => Dispatch::Run(Action::Launch),
        Command::DisplayLogs => Dispatch::Run(Action::DisplayLogs),
        Command::GameDir => Dispatch::Run(Action::OpenGameDir),
        Command::LocalEnv => Dispatch::Run(Action::OpenLocalDir),
        Command::Quit => Dispatch::Exit,
    }
}

/// Takes one line of the prompt, parsed or found to be no command, and
/// says what to do with it. A command is noted as entered. A line that is
/// no command leaves the context as it was. The shared state is touched by
/// neither.
pub fn try_execute_command<'a, H>(
    parsed: Option<Command>,
    context: &mut CommandContext<'a, H>,
) -> (plan: Dispatch)
    ensures
        final(context).entered() == (parsed is Some || old(context).entered()),
        final(context).same_shared(old(context)),
        final(context).console() == old(context).console(),
        final(context).local() == old(context).local(),
        plan == match parsed {
            Some(command) => dispatch_of(command),
            None => Dispatch::Usage,
        },
{
    match parsed {
        Some(command) => {
            context.command_entered();
            dispatch(command)
        },
        None => Dispatch::Usage,
    }
}

/// What a favorites build says at its end: whether it has found something
/// that the cache did not hold. A build that failed has found nothing.
pub open spec fn found_new(result: Result<bool, String>) -> bool {
    result == Ok::<bool, String>(true)
}

/// Ends a favorites build: raises the flag that says that the cache has to
/// be written again where the build has found something new, and says
/// whether it did.
pub fn new_favorites_with(result: Result<bool, String>, cache_needs_update: &AtomicBool) -> (raised:
    bool)
    ensures
        raised == found_new(result),
{
    let raised = match result {
        Ok(found) => found,
        Err(_) => false,
    };
    if raised {
        cache_needs_update.store(true, Ordering::SeqCst);
    }
    raised
}

/// The message of [`reset_cache`] where there is no directory to keep the
/// cache in.
pub const NO_SAVE_DIRECTORY: &'static str =
    "Can not create cache with out a valid save directory";

/// Where a rebuilt cache is kept: the directory that holds the cache and
/// the log. Without one the cache is not rebuilt.
pub fn reset_cache<'a, H>(context: &CommandContext<'a, H>) -> (local_dir: Result<
    Arc<PathBuf>,
    &'static str,
>)
    ensures
        match context.local() {
            Some(dir) => local_dir == Ok::<Arc<PathBuf>, &'static str>(dir),
            None => local_dir matches Err(message) && message@ == NO_SAVE_DIRECTORY@,
        },
{
    match context.local_dir() {
        Some(dir) => Ok(dir),
        None => Err(NO_SAVE_DIRECTORY),
    }
}

/// The message of [`open_dir`] where there is no directory to open.
pub const NO_LOCAL_DIR: &'static str = "Could not find local dir";

/// The directory that is to be opened for the user, or why none is.
pub fn open_dir(path: Option<Arc<PathBuf>>) -> (dir: Result<Arc<PathBuf>, &'static str>)
    ensures
        match path {
            Some(given) => dir == Ok::<Arc<PathBuf>, &'static str>(given),
            None => dir matches Err(message) && message@ == NO_LOCAL_DIR@,
        },
{
    match path {
        Some(given) => Ok(given),
        None => Err(NO_LOCAL_DIR),
    }
}

/// The lines of a history, each with a line feed behind it.
pub open spec fn log_text(history: Seq<Seq<char>>) -> Seq<char>
    decreases history.len(),
{
    if history.len() == 0 {
        Seq::empty()
    } else {
        log_text(history.drop_last()) + history.last() + seq!['\n']
    }
}

/// What is shown of the game's console: its lines, each with a line feed
/// behind it.
pub fn h2m_console_history(history: &Vec<String>) -> (text: String)
    ensures
        text@ == log_text(history.deep_view()),
{
    let ghost all = history.deep_view();
    let mut text = String::new();
    let mut i: usize = 0;
    assert(all.take(0) == Seq::<Seq<char>>::empty());
    while i < history.len()
        invariant
            all == history.deep_view(),
            i <= history.len(),
            text@ == log_text(all.take(i as int)),
        decreases history.len() - i,
    {
        proof {
            let next = all.take(i + 1);
            assert(next.drop_last() == all.take(i as int));
            assert(next.last() == history[i as int]@);
        }
        text.append(history[i].as_str());
        text.push('\n');
        i += 1;
    }
    assert(all.take(history.len() as int) == all);
    text
}

} // verus!
