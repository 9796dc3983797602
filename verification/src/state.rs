//! The state of the store front and its transitions: every message is
//! applied to the state in one step, which may ask for outside work by
//! returning a command.

use crate::catalog::{share, Collection, Icon, Package};
use crate::registry::{has_name, Backends, Installed};
use crate::search::{escaped, Matcher, PatternError, SearchResult};
use std::sync::Arc;
use vstd::prelude::*;

verus! {

/// The colour scheme that the user chose.
#[derive(Clone, Copy, Debug, PartialEq, Eq, Structural)]
pub enum AppTheme {
    Dark,
    Light,
    System,
}

/// The persisted settings.
#[derive(Clone, Copy, Debug, PartialEq, Eq, Structural)]
pub struct Config {
    pub app_theme: AppTheme,
}

/// What the state is started with.
pub struct Flags {
    /// The locale that the system names, if it names one.
    pub locale: Option<String>,
    pub config: Config,
}

/// What a key binding can trigger.
#[derive(Clone, Copy, Debug, PartialEq, Eq, Structural)]
pub enum Action {
    SearchActivate,
}

/// The pages of the context drawer.
#[derive(Clone, Copy, Debug, PartialEq, Eq, Structural)]
pub enum ContextPage {
    Settings,
}

/// The fully described entry that the user chose.
pub struct Selected {
    pub backend_name: String,
    pub id: String,
    pub icon: Icon,
    pub name: String,
    pub summary: String,
    pub collection: Arc<Collection>,
}

/// The events that the state reacts to.
pub enum Message {
    Todo,
    AppTheme(AppTheme),
    Backends(Backends),
    Config(Config),
    Installed(Vec<Installed>),
    /// A key chord that is bound to an action was pressed.
    Key(Action),
    SearchActivate,
    SearchClear,
    SearchInput(String),
    SearchResults(Vec<SearchResult>),
    SearchSubmit,
    SelectInstalled(usize),
    SelectNone,
    SelectSearchResult(usize),
    Selected(Selected),
    SystemThemeModeChange,
    ToggleContextPage(ContextPage),
    WindowClose,
    WindowNew,
}

/// The outside work that a transition asks for.
pub enum Command {
    /// Nothing to do.
    Idle,
    /// Apply the theme.
    SetTheme(AppTheme),
    /// Persist the theme, then apply it.
    SaveTheme(AppTheme),
    /// Discover the usable backends.
    LoadBackends,
    /// Ask every registered backend for its installed packages.
    ListInstalled,
    /// Move the keyboard focus to the search field.
    FocusSearch,
    /// Search the metadata store with this matcher.
    Search(Matcher),
    /// Report that the submitted text gave no pattern; nothing is searched.
    SearchFailed(PatternError),
    /// Ask the backend at place `backend` for the metadata of `package`.
    FetchAppstream { backend: usize, backend_name: String, package: Package },
    /// Close the main window.
    CloseWindow,
    /// Start another instance.
    SpawnWindow,
}

/// The state of the store front.
pub struct App {
    pub show_context: bool,
    pub context_title: String,
    pub config: Config,
    pub locale: String,
    pub backends: Backends,
    pub context_page: ContextPage,
    pub search_active: bool,
    pub search_input: String,
    pub installed: Vec<Installed>,
    pub search_results: Option<Vec<SearchResult>>,
    pub selected_opt: Option<Selected>,
}

/// The locale that is used where the system names none.
pub open spec fn fallback_locale() -> Seq<char> {
    seq!['e', 'n', '-', 'U', 'S']
}

/// The key of a page's title in the string table.
pub open spec fn title_key(page: ContextPage) -> Seq<char> {
    match page {
        ContextPage::Settings => seq!['s', 'e', 't', 't', 'i', 'n', 'g', 's'],
    }
}

/// The place of a theme in the settings' list of themes.
pub open spec fn theme_place(theme: AppTheme) -> nat {
    match theme {
        AppTheme::Dark => 1,
        AppTheme::Light => 2,
        AppTheme::System => 0,
    }
}

/// The theme at a place of the settings' list; places past the list stand
/// for the system's theme.
pub open spec fn theme_of_place(place: nat) -> AppTheme {
    if place == 1 {
        AppTheme::Dark
    } else if place == 2 {
        AppTheme::Light
    } else {
        AppTheme::System
    }
}

/// The selection that a search result stands for.
pub open spec fn selected_of(result: SearchResult) -> Selected {
    Selected {
        backend_name: result.backend_name,
        id: result.id,
        icon: result.icon,
        name: result.name,
        summary: result.summary,
        collection: result.collection,
    }
}

/// Whether `command` is the answer to selecting `package` of the backend
/// called `name`: a fetch from that backend where it is registered, nothing
/// where it is not.
pub open spec fn select_outcome(
    backends: Seq<String>,
    name: Seq<char>,
    package: Package,
    command: Command,
) -> bool {
    if has_name(backends, name) {
        match command {
            Command::FetchAppstream { backend, backend_name, package: fetched } => {
                &&& backend < backends.len()
                &&& backends[backend as int]@ == name
                &&& backend_name@ == name
                &&& fetched == package
            },
            _ => false,
        }
    } else {
        command is Idle
    }
}

/// Whether `command` may answer the submission of the search text `input`:
/// nothing for the empty text, and for any other text either a search with
/// the matcher of the escaped text or the report that the escaped text did
/// not compile.
pub open spec fn submit_outcome(input: Seq<char>, command: Command) -> bool {
    match command {
        Command::Idle => input.len() == 0,
        Command::Search(matcher) => input.len() > 0 && matcher@ == escaped(input),
        Command::SearchFailed(error) => input.len() > 0 && error.source@ == escaped(input),
        _ => false,
    }
}

/// Whether the state `after` and `command` are what `message` makes of the
/// state `before`.
pub open spec fn step(before: App, message: Message, after: App, command: Command) -> bool {
    match message {
        Message::Todo => after == before && command is Idle,
        Message::AppTheme(theme) => after == (App {
            config: Config { app_theme: theme },
            ..before
        }) && command == Command::SaveTheme(theme),
        Message::Backends(backends) => after == (App { backends: backends, ..before })
            && command is ListInstalled,
        Message::Config(config) => if config != before.config {
            after == (App { config: config, ..before }) && command == Command::SetTheme(
                config.app_theme,
            )
        } else {
            after == before && command is Idle
        },
        Message::Installed(installed) => after == (App { installed: installed, ..before })
            && command is Idle,
        Message::Key(action) => match action {
            Action::SearchActivate => after == (App { search_active: true, ..before })
                && command is FocusSearch,
        },
        Message::SearchActivate => after == (App { search_active: true, ..before })
            && command is FocusSearch,
        Message::SearchClear => after.search_input@.len() == 0 && (App {
            search_input: before.search_input,
            ..after
        }) == (App { search_active: false, search_results: None, ..before }) && command is Idle,
        Message::SearchInput(input) => after == (App { search_input: input, ..before })
            && command is Idle,
        Message::SearchResults(results) => after == (App {
            search_results: Some(results),
            ..before
        }) && command is Idle,
        Message::SearchSubmit => after == before && submit_outcome(before.search_input@, command),
        Message::SelectInstalled(i) => after == before && if i < before.installed@.len() {
            select_outcome(
                before.backends@,
                before.installed@[i as int].backend_name@,
                before.installed@[i as int].package,
                command,
            )
        } else {
            command is Idle
        },
        Message::SelectNone => after == (App { selected_opt: None, ..before }) && command is Idle,
        Message::SelectSearchResult(i) => command is Idle && match before.search_results {
            Some(results) => if i < results@.len() {
                after == (App { selected_opt: Some(selected_of(results@[i as int])), ..before })
            } else {
                after == before
            },
            None => after == before,
        },
        Message::Selected(selected) => after == (App { selected_opt: Some(selected), ..before })
            && command is Idle,
        Message::SystemThemeModeChange => after == before && command == Command::SetTheme(
            before.config.app_theme,
        ),
        Message::ToggleContextPage(page) => after.context_title@ == title_key(page) && (App {
            context_title: before.context_title,
            ..after
        }) == (App {
            show_context: if before.context_page == page {
                !before.show_context
            } else {
                true
            },
            context_page: page,
            ..before
        }) && command is Idle,
        Message::WindowClose => after == before && command is CloseWindow,
        Message::WindowNew => after == before && command is SpawnWindow,
    }
}

impl Action {
    /// The message that the action sends.
    pub fn message(&self) -> (r: Message)
        ensures
            match *self {
                Action::SearchActivate => r is SearchActivate,
            },
    {
        match self {
            Action::SearchActivate => Message::SearchActivate,
        }
    }
}

impl ContextPage {
    /// The key of the page's title in the string table.
    pub fn title(&self) -> (r: String)
        ensures
            r@ == title_key(*self),
    {
        match self {
            ContextPage::Settings => {
                proof {
                    reveal_strlit("settings");
                    assert("settings"@ =~= title_key(ContextPage::Settings));
                }
                "settings".to_owned()
            },
        }
    }
}

/// The place of `theme` in the settings' list of themes.
pub fn theme_index(theme: AppTheme) -> (r: usize)
    ensures
        r == theme_place(theme),
{
    match theme {
        AppTheme::Dark => 1,
        AppTheme::Light => 2,
        AppTheme::System => 0,
    }
}

/// The theme at place `index` of the settings' list of themes.
pub fn theme_at(index: usize) -> (r: AppTheme)
    ensures
        r == theme_of_place(index as nat),
{
    if index == 1 {
        AppTheme::Dark
    } else if index == 2 {
        AppTheme::Light
    } else {
        AppTheme::System
    }
}

/// Choosing the place of a theme in the settings' list gives that theme back.
pub proof fn lemma_theme_round_trip(theme: AppTheme)
    ensures
        theme_of_place(theme_place(theme)) == theme,
{
}

/// The selection that the search result `result` stands for.
pub fn selected_from_result(result: &SearchResult) -> (r: Selected)
    ensures
        r == selected_of(*result),
{
    Selected {
        backend_name: result.backend_name.clone(),
        id: result.id.clone(),
        icon: result.icon.duplicate(),
        name: result.name.clone(),
        summary: result.summary.clone(),
        collection: share(&result.collection),
    }
}

/// The selection that the outcome of fetching a package's metadata stands
/// for: the package's fields with the fetched collection, or none where the
/// fetch failed.
pub fn selected_from(backend_name: String, package: Package, fetched: Result<Collection, String>)
    -> (r: Option<Selected>)
    ensures
        fetched is Ok <==> r is Some,
        r matches Some(selected) ==> selected.backend_name == backend_name && selected.id
            == package.id && selected.icon == package.icon && selected.name == package.name
            && selected.summary == package.summary && fetched == Ok::<Collection, String>(
            *selected.collection,
        ),
{
    match fetched {
        Ok(collection) => Some(
            Selected {
                backend_name,
                id: package.id,
                icon: package.icon,
                name: package.name,
                summary: package.summary,
                collection: Arc::new(collection),
            },
        ),
        Err(_) => None,
    }
}

/// The command that the outcome of compiling a query stands for: the search
/// with the matcher, or the report of the error.
pub fn search_command(compiled: Result<Matcher, PatternError>) -> (r: Command)
    ensures
        match compiled {
            Ok(matcher) => r == Command::Search(matcher),
            Err(error) => r == Command::SearchFailed(error),
        },
{
    match compiled {
        Ok(matcher) => Command::Search(matcher),
        Err(error) => Command::SearchFailed(error),
    }
}

impl App {
    /// The state at startup, for the locale that the system names, and the
    /// command that loads the backends.
    pub fn init(flags: Flags) -> (r: (App, Command))
        ensures
            r.1 is LoadBackends,
            r.0.locale@ == (match flags.locale {
                Some(named) => named@,
                None => fallback_locale(),
            }),
            r.0.config == flags.config,
            !r.0.show_context,
            r.0.context_title@.len() == 0,
            !r.0.search_active,
            r.0.context_page == ContextPage::Settings,
            r.0.search_input@.len() == 0,
            r.0.backends@.len() == 0,
            r.0.backends.wf(),
            r.0.installed@.len() == 0,
            r.0.search_results is None,
            r.0.selected_opt is None,
    {
        let config = flags.config;
        let locale = match flags.locale {
            Some(named) => named,
            None => {
                proof {
                    reveal_strlit("en-US");
                    assert("en-US"@ =~= fallback_locale());
                }
                "en-US".to_owned()
            },
        };
        let app = App {
            show_context: false,
            context_title: String::new(),
            config,
            locale,
            backends: Backends::new(),
            context_page: ContextPage::Settings,
            search_active: false,
            search_input: String::new(),
            installed: Vec::new(),
            search_results: None,
            selected_opt: None,
        };
        (app, Command::LoadBackends)
    }

    /// Answers the selection of `package` of the backend called
    /// `backend_name`: a fetch from that backend, or nothing where no backend
    /// of that name is registered.
    pub fn select_package(&self, backend_name: &str, package: Package) -> (command: Command)
        ensures
            select_outcome(self.backends@, backend_name@, package, command),
    {
        match self.backends.get(backend_name) {
            Some(backend) => Command::FetchAppstream {
                backend,
                backend_name: backend_name.to_owned(),
                package,
            },
            None => Command::Idle,
        }
    }

    /// Takes in the outcome of a selection: a new selection replaces the
    /// current one, and a failed one changes nothing.
    pub fn apply_selection(&mut self, outcome: Option<Selected>)
        ensures
            match outcome {
                Some(selected) => *final(self) == (App {
                    selected_opt: Some(selected),
                    ..*old(self)
                }),
                None => *final(self) == *old(self),
            },
    {
        match outcome {
            Some(selected) => {
                self.selected_opt = Some(selected);
            },
            None => {},
        }
    }

    /// Reacts to the escape key: closes the context drawer if it is open,
    /// else the search if it is open.
    pub fn on_escape(&mut self) -> (command: Command)
        ensures
            command is Idle,
            *final(self) == (if old(self).show_context {
                App { show_context: false, ..*old(self) }
            } else if old(self).search_active {
                App { search_active: false, search_results: None, ..*old(self) }
            } else {
                *old(self)
            }),
    {
        if self.show_context {
            self.show_context = false;
        } else if self.search_active {
            self.search_active = false;
            self.search_results = None;
        }
        Command::Idle
    }

    /// Applies `message` to the state and returns the outside work that it
    /// asks for.
    pub fn update(&mut self, message: Message) -> (command: Command)
        ensures
            step(*old(self), message, *final(self), command),
    {
        match message {
            Message::Todo => Command::Idle,
            Message::AppTheme(app_theme) => {
                self.config = Config { app_theme };
                Command::SaveTheme(app_theme)
            },
            Message::Backends(backends) => {
                self.backends = backends;
                Command::ListInstalled
            },
            Message::Config(config) => {
                if config != self.config {
                    self.config = config;
                    Command::SetTheme(config.app_theme)
                } else {
                    Command::Idle
                }
            },
            Message::Installed(installed) => {
                self.installed = installed;
                Command::Idle
            },
            Message::Key(action) => match action {
                Action::SearchActivate => {
                    self.search_active = true;
                    Command::FocusSearch
                },
            },
            Message::SearchActivate => {
                self.search_active = true;
                Command::FocusSearch
            },
            Message::SearchClear => {
                self.search_active = false;
                self.search_input = String::new();
                self.search_results = None;
                Command::Idle
            },
            Message::SearchInput(input) => {
                self.search_input = input;
                Command::Idle
            },
            Message::SearchResults(results) => {
                self.search_results = Some(results);
                Command::Idle
            },
            Message::SearchSubmit => {
                if !self.search_input.as_str().is_empty() {
                    search_command(Matcher::new(self.search_input.as_str()))
                } else {
                    Command::Idle
                }
            },
            Message::SelectInstalled(installed_i) => {
                if installed_i < self.installed.len() {
                    let package = self.installed[installed_i].package.duplicate();
                    self.select_package(self.installed[installed_i].backend_name.as_str(), package)
                } else {
                    Command::Idle
                }
            },
            Message::SelectNone => {
                self.selected_opt = None;
                Command::Idle
            },
            Message::SelectSearchResult(result_i) => {
                let chosen = match &self.search_results {
                    Some(results) => {
                        if result_i < results.len() {
                            Some(selected_from_result(&results[result_i]))
                        } else {
                            None
                        }
                    },
                    None => None,
                };
                self.apply_selection(chosen);
                Command::Idle
            },
            Message::Selected(selected) => {
                self.selected_opt = Some(selected);
                Command::Idle
            },
            Message::SystemThemeModeChange => Command::SetTheme(self.config.app_theme),
            Message::ToggleContextPage(context_page) => {
                if self.context_page == context_page {
                    self.show_context = !self.show_context;
                } else {
                    self.context_page = context_page;
                    self.show_context = true;
                }
                self.context_title = context_page.title();
                Command::Idle
            },
            Message::WindowClose => Command::CloseWindow,
            Message::WindowNew => Command::SpawnWindow,
        }
    }
}

} // verus!
