//! The launcher's state machine.
//!
//! The host calls `tick` once per frame with what it observed since the last
//! frame, and carries out the commands that come back. Nothing here blocks:
//! a check for updates runs elsewhere, and its result arrives as an input.

use crate::input::{get_button, get_button_down, pressed, Button, PadState};
use crate::modpack::{
    listed, memoized, plugins_outcome, DirectoryItem, Modpack, ModpackLoadResult, ModpackMetadata,
    PluginError,
};
use crate::picture::{
    may_read, picture_outcome, was_read, FileContent, Image, ImageLoadError, ICON_HEIGHT,
    ICON_WIDTH, SPLASH_HEIGHT, SPLASH_WIDTH,
};
use crate::self_update::UpdateCheck;
use crate::text::{file_name, last_component};
use crate::version::version_text;
use vstd::prelude::*;
use vstd::string::*;

verus! {

/// The id that stands for the unmodified game in the configuration.
pub const VANILLA_ID: &'static str = "vanilla";

/// What the launcher is doing.
#[derive(Copy, Clone, Debug)]
pub enum LauncherState {
    /// Nothing has been shown yet.
    Initializing,
    /// A check for updates is under way; the number names it to the host.
    CheckingForUpdate(u64),
    /// The user is choosing.
    SelectingModpack,
    /// The choice is made and the closing animation is running.
    PreloadAnimating,
    /// The game is loading.
    LoadingContent,
    /// The game runs; the launcher is done.
    Loaded,
}

impl LauncherState {
    /// Whether two states are the same state, whatever check either names.
    pub open spec fn same_state(self, other: LauncherState) -> bool {
        match (self, other) {
            (LauncherState::Initializing, LauncherState::Initializing) => true,
            (LauncherState::CheckingForUpdate(_), LauncherState::CheckingForUpdate(_)) => true,
            (LauncherState::SelectingModpack, LauncherState::SelectingModpack) => true,
            (LauncherState::PreloadAnimating, LauncherState::PreloadAnimating) => true,
            (LauncherState::LoadingContent, LauncherState::LoadingContent) => true,
            (LauncherState::Loaded, LauncherState::Loaded) => true,
            _ => false,
        }
    }
}

impl PartialEq for LauncherState {
    fn eq(&self, other: &LauncherState) -> (r: bool) {
        match (self, other) {
            (LauncherState::Initializing, LauncherState::Initializing) => true,
            (LauncherState::CheckingForUpdate(_), LauncherState::CheckingForUpdate(_)) => true,
            (LauncherState::SelectingModpack, LauncherState::SelectingModpack) => true,
            (LauncherState::PreloadAnimating, LauncherState::PreloadAnimating) => true,
            (LauncherState::LoadingContent, LauncherState::LoadingContent) => true,
            (LauncherState::Loaded, LauncherState::Loaded) => true,
            _ => false,
        }
    }
}

impl vstd::std_specs::cmp::PartialEqSpecImpl for LauncherState {
    open spec fn obeys_eq_spec() -> bool {
        true
    }

    open spec fn eq_spec(&self, other: &LauncherState) -> bool {
        self.same_state(*other)
    }
}

impl Eq for LauncherState {

}

/// An animation of the launcher's screen.
#[derive(Copy, Clone, Debug, PartialEq, Eq, Structural)]
pub enum Animation {
    Left,
    Right,
    ShowSplashImage,
}

/// What the host is to do after a step of the machine, in the order given.
#[derive(Copy, Clone, Debug, PartialEq, Eq, Structural)]
pub enum Command {
    /// Show or hide the main screen.
    ShowMainUi(bool),
    /// Show or hide the "operation pending" screen.
    ShowPendingOperationUi(bool),
    PlayAnimation(Animation),
    /// Show the selection anew, from `selection_display`.
    DisplaySelection,
    /// Show the splash image of the catalog entry at this place, from
    /// `show_splash_image`.
    DisplaySplash(usize),
    /// Load the plugins of the catalog entry at this place.
    LoadModpack(usize),
    /// Hand control to the game's own loading.
    StartContent,
    /// Log that the check for updates failed.
    ReportUpdateCheckFailure,
    DestroyLauncherUi,
    ReleaseVanillaIcon,
    ReleaseSplashImage,
}

/// What the host observed since the last frame.
#[derive(Debug, Clone)]
pub struct TickInput {
    /// Whether an animation of the launcher's screen is still playing.
    pub animation_playing: bool,
    /// The outcome of the check for updates, if it has arrived.
    pub update_check: Option<UpdateCheck>,
    pub pad: PadState,
}

/// The launcher: its state, the catalog, and the selection.
///
/// The selection runs from 0 to the length of the catalog: 0 is the
/// unmodified game, and `i` above 0 is the catalog's entry at `i - 1`.
#[derive(Debug)]
pub struct Launcher {
    pub state: LauncherState,
    pub modpacks: Vec<ModpackLoadResult>,
    /// The place in the catalog of the modpack that was loaded, if one was.
    pub loaded_modpack: Option<usize>,
    pub selection_index: usize,
    /// The splash image on show, if there is one.
    pub splash_image: Option<Image>,
}

/// Whether the entry at `index` of a catalog is a valid modpack.
pub open spec fn is_success(modpacks: Seq<ModpackLoadResult>, index: int) -> bool {
    0 <= index < modpacks.len() && modpacks[index] is Success
}

/// The valid modpack at `index` of a catalog.
pub open spec fn modpack_at(modpacks: Seq<ModpackLoadResult>, index: int) -> Modpack {
    modpacks[index]->Success_0
}

/// Whether the selection `selection` can be loaded: the unmodified game
/// always, a catalog entry where it is a valid modpack.
pub open spec fn loadable(modpacks: Seq<ModpackLoadResult>, selection: int) -> bool {
    selection == 0 || is_success(modpacks, selection - 1)
}

/// The selection after the left button, where it is held: one down, and
/// never below zero.
pub open spec fn moved_left(selection: int, left: bool) -> int {
    if left && selection > 0 {
        selection - 1
    } else {
        selection
    }
}

/// The selection after the right button, where it is held: one up, and never
/// beyond the catalog's length `count`.
pub open spec fn moved_right(selection: int, right: bool, count: int) -> int {
    if right && selection < count {
        selection + 1
    } else {
        selection
    }
}

/// A step of the machine: where it goes and what the host is to do.
pub struct Step {
    pub state: LauncherState,
    pub selection: int,
    pub loaded: Option<usize>,
    pub commands: Seq<Command>,
}

/// The commands that leave the "operation pending" screen for the main one.
pub open spec fn reveal_main_ui() -> Seq<Command> {
    seq![Command::ShowPendingOperationUi(false), Command::ShowMainUi(true)]
}

/// The step from the state in which the user is choosing. While an animation
/// plays nothing happens. Else the left button is seen to first, then the
/// right one, then the confirm button, which counts only where the selection
/// can be loaded.
pub open spec fn select_step(
    modpacks: Seq<ModpackLoadResult>,
    loaded: Option<usize>,
    selection: int,
    input: TickInput,
) -> Step {
    if input.animation_playing {
        Step {
            state: LauncherState::SelectingModpack,
            selection,
            loaded,
            commands: Seq::<Command>::empty(),
        }
    } else {
        let left = pressed(input.pad.held, Button::Left);
        let right = pressed(input.pad.held, Button::Right);
        let confirm = pressed(input.pad.down, Button::A);
        let after_left = moved_left(selection, left);
        let after_right = moved_right(after_left, right, modpacks.len() as int);
        let left_commands = if after_left != selection {
            seq![Command::DisplaySelection, Command::PlayAnimation(Animation::Left)]
        } else {
            Seq::<Command>::empty()
        };
        let right_commands = if after_right != after_left {
            seq![Command::DisplaySelection, Command::PlayAnimation(Animation::Right)]
        } else {
            Seq::<Command>::empty()
        };
        if confirm && loadable(modpacks, after_right) {
            let splash = if after_right > 0 {
                seq![Command::DisplaySplash((after_right - 1) as usize)]
            } else {
                Seq::<Command>::empty()
            };
            Step {
                state: LauncherState::PreloadAnimating,
                selection: after_right,
                loaded,
                commands: left_commands + right_commands + splash + seq![
                    Command::PlayAnimation(Animation::ShowSplashImage),
                ],
            }
        } else {
            Step {
                state: LauncherState::SelectingModpack,
                selection: after_right,
                loaded,
                commands: left_commands + right_commands,
            }
        }
    }
}

/// The step that `tick` takes from the state `state`.
pub open spec fn tick_step(
    state: LauncherState,
    modpacks: Seq<ModpackLoadResult>,
    loaded: Option<usize>,
    selection: int,
    input: TickInput,
) -> Step {
    match state {
        LauncherState::CheckingForUpdate(_) => match input.update_check {
            None => Step { state, selection, loaded, commands: Seq::<Command>::empty() },
            Some(Ok(_)) => Step {
                state: LauncherState::SelectingModpack,
                selection,
                loaded,
                commands: reveal_main_ui(),
            },
            Some(Err(_)) => Step {
                state: LauncherState::SelectingModpack,
                selection,
                loaded,
                commands: seq![Command::ReportUpdateCheckFailure] + reveal_main_ui(),
            },
        },
        LauncherState::SelectingModpack => select_step(modpacks, loaded, selection, input),
        LauncherState::PreloadAnimating => if input.animation_playing {
            Step { state, selection, loaded, commands: Seq::<Command>::empty() }
        } else if selection > 0 && is_success(modpacks, selection - 1) {
            Step {
                state: LauncherState::LoadingContent,
                selection,
                loaded: Some((selection - 1) as usize),
                commands: seq![
                    Command::LoadModpack((selection - 1) as usize),
                    Command::StartContent,
                ],
            }
        } else {
            Step {
                state: LauncherState::LoadingContent,
                selection,
                loaded,
                commands: seq![Command::StartContent],
            }
        },
        _ => Step { state, selection, loaded, commands: Seq::<Command>::empty() },
    }
}

impl Launcher {
    /// Whether the launcher is in order: the selection is within the catalog
    /// or on the unmodified game, and a loaded modpack is a valid entry of the
    /// catalog.
    pub open spec fn wf(&self) -> bool {
        &&& self.selection_index <= self.modpacks@.len()
        &&& self.loaded_modpack matches Some(i) ==> is_success(self.modpacks@, i as int)
    }

    /// A launcher for this catalog, with nothing shown yet and the
    /// unmodified game selected.
    pub fn new(modpacks: Vec<ModpackLoadResult>) -> (r: Launcher)
        ensures
            r.wf(),
            r.state is Initializing,
            r.modpacks == modpacks,
            r.loaded_modpack is None,
            r.selection_index == 0,
            r.splash_image is None,
    {
        Launcher {
            state: LauncherState::Initializing,
            modpacks,
            loaded_modpack: None,
            selection_index: 0,
            splash_image: None,
        }
    }

    /// The valid modpack under the selection, if the selection is on one.
    pub fn get_current_modpack(&self) -> (r: Option<&Modpack>)
        ensures
            match r {
                Some(modpack) => self.selection_index > 0 && is_success(
                    self.modpacks@,
                    self.selection_index - 1,
                ) && self.modpacks@[self.selection_index - 1] == ModpackLoadResult::Success(
                    *modpack,
                ),
                None => self.selection_index == 0 || !is_success(
                    self.modpacks@,
                    self.selection_index - 1,
                ),
            },
    {
        if self.selection_index == 0 || self.selection_index - 1 >= self.modpacks.len() {
            return None;
        }
        match &self.modpacks[self.selection_index - 1] {
            ModpackLoadResult::Success(modpack) => Some(modpack),
            ModpackLoadResult::Invalid(_) => None,
        }
    }

    /// Whether the selection can be loaded.
    pub fn selected_modpack_loadable(&self) -> (r: bool)
        ensures
            r == loadable(self.modpacks@, self.selection_index as int),
    {
        self.selection_index == 0 || self.get_current_modpack().is_some()
    }

    /// One frame of the machine.
    ///
    /// Takes the step that `tick_step` describes and returns its commands.
    /// The catalog and the splash image are left as they are. A selection
    /// within the catalog stays within it, however the buttons are held.
    pub fn tick(&mut self, input: &TickInput) -> (commands: Vec<Command>)
        ensures
            ({
                let step = tick_step(
                    old(self).state,
                    old(self).modpacks@,
                    old(self).loaded_modpack,
                    old(self).selection_index as int,
                    *input,
                );
                &&& final(self).state == step.state
                &&& final(self).selection_index == step.selection
                &&& final(self).loaded_modpack == step.loaded
                &&& commands@ == step.commands
            }),
            final(self).modpacks == old(self).modpacks,
            final(self).splash_image == old(self).splash_image,
            old(self).wf() ==> final(self).wf(),
            old(self).selection_index <= old(self).modpacks@.len() ==> final(self).selection_index
                <= final(self).modpacks@.len(),
    {
        let mut commands: Vec<Command> = Vec::new();
        match self.state {
            LauncherState::CheckingForUpdate(_) => {
                match &input.update_check {
                    None => {},
                    Some(Ok(_)) => {
                        self.state = LauncherState::SelectingModpack;
                        commands.push(Command::ShowPendingOperationUi(false));
                        commands.push(Command::ShowMainUi(true));
                    },
                    Some(Err(_)) => {
                        self.state = LauncherState::SelectingModpack;
                        commands.push(Command::ReportUpdateCheckFailure);
                        commands.push(Command::ShowPendingOperationUi(false));
                        commands.push(Command::ShowMainUi(true));
                    },
                }
                assert(commands@ =~= tick_step(
                    old(self).state,
                    old(self).modpacks@,
                    old(self).loaded_modpack,
                    old(self).selection_index as int,
                    *input,
                ).commands);
            },
            LauncherState::SelectingModpack => {
                if !input.animation_playing {
                    if get_button(&input.pad, Button::Left) && self.selection_index > 0 {
                        self.selection_index -= 1;
                        commands.push(Command::DisplaySelection);
                        commands.push(Command::PlayAnimation(Animation::Left));
                    }
                    if get_button(&input.pad, Button::Right) && self.selection_index
                        < self.modpacks.len() {
                        self.selection_index += 1;
                        commands.push(Command::DisplaySelection);
                        commands.push(Command::PlayAnimation(Animation::Right));
                    }
                    if get_button_down(&input.pad, Button::A) && self.selected_modpack_loadable() {
                        self.state = LauncherState::PreloadAnimating;
                        if self.selection_index > 0 {
                            commands.push(Command::DisplaySplash(self.selection_index - 1));
                        }
                        commands.push(Command::PlayAnimation(Animation::ShowSplashImage));
                    }
                }
                assert(commands@ =~= select_step(
                    old(self).modpacks@,
                    old(self).loaded_modpack,
                    old(self).selection_index as int,
                    *input,
                ).commands);
            },
            LauncherState::PreloadAnimating => {
                if !input.animation_playing {
                    self.state = LauncherState::LoadingContent;
                    if self.get_current_modpack().is_some() {
                        self.loaded_modpack = Some(self.selection_index - 1);
                        commands.push(Command::LoadModpack(self.selection_index - 1));
                    }
                    commands.push(Command::StartContent);
                }
                assert(commands@ =~= tick_step(
                    old(self).state,
                    old(self).modpacks@,
                    old(self).loaded_modpack,
                    old(self).selection_index as int,
                    *input,
                ).commands);
            },
            _ => {},
        }
        commands
    }
}

/// The modpack entry `entry` with its icon forgotten; an invalid entry as it
/// is.
pub open spec fn without_icon(entry: ModpackLoadResult) -> ModpackLoadResult {
    match entry {
        ModpackLoadResult::Success(modpack) => ModpackLoadResult::Success(
            Modpack { metadata: modpack.metadata, path: modpack.path, icon: None },
        ),
        ModpackLoadResult::Invalid(invalid) => ModpackLoadResult::Invalid(invalid),
    }
}

/// The commands that take the launcher's screen down.
pub open spec fn teardown_commands(splash_shown: bool) -> Seq<Command> {
    if splash_shown {
        seq![Command::DestroyLauncherUi, Command::ReleaseVanillaIcon, Command::ReleaseSplashImage]
    } else {
        seq![Command::DestroyLauncherUi, Command::ReleaseVanillaIcon]
    }
}

/// The place of the first valid modpack with the id `id` among the first `n`
/// entries of a catalog, if there is one.
pub open spec fn first_with_id(modpacks: Seq<ModpackLoadResult>, id: Seq<char>, n: int) -> Option<
    int,
>
    decreases n,
{
    if n <= 0 {
        None
    } else {
        match first_with_id(modpacks, id, n - 1) {
            Some(i) => Some(i),
            None => if is_success(modpacks, n - 1) && modpacks[n - 1]->Success_0.metadata.id@
                == id {
                Some(n - 1)
            } else {
                None
            },
        }
    }
}

/// What a search by id finds is a valid modpack with that id, and the first
/// such; where it finds nothing there is none.
pub proof fn lemma_first_with_id(modpacks: Seq<ModpackLoadResult>, id: Seq<char>, n: int)
    requires
        0 <= n <= modpacks.len(),
    ensures
        match first_with_id(modpacks, id, n) {
            Some(i) => {
                &&& 0 <= i < n
                &&& is_success(modpacks, i)
                &&& modpacks[i]->Success_0.metadata.id@ == id
                &&& forall|j: int|
                    0 <= j < i ==> !(is_success(modpacks, j)
                        && #[trigger] modpacks[j]->Success_0.metadata.id@ == id)
            },
            None => forall|j: int|
                0 <= j < n ==> !(is_success(modpacks, j)
                    && #[trigger] modpacks[j]->Success_0.metadata.id@ == id),
        },
    decreases n,
{
    if n > 0 {
        lemma_first_with_id(modpacks, id, n - 1);
    }
}

/// The step that `auto_launch` takes for the id `id`.
pub open spec fn auto_launch_step(
    state: LauncherState,
    modpacks: Seq<ModpackLoadResult>,
    loaded: Option<usize>,
    selection: int,
    id: Seq<char>,
) -> Step {
    if !(state is Initializing) {
        Step { state, selection, loaded, commands: Seq::<Command>::empty() }
    } else if id == VANILLA_ID@ {
        Step { state: LauncherState::Loaded, selection, loaded, commands: Seq::<Command>::empty() }
    } else {
        match first_with_id(modpacks, id, modpacks.len() as int) {
            Some(i) => Step {
                state: LauncherState::Loaded,
                selection,
                loaded: Some(i as usize),
                commands: seq![Command::LoadModpack(i as usize)],
            },
            None => Step {
                state: LauncherState::SelectingModpack,
                selection,
                loaded,
                commands: seq![Command::DisplaySelection] + reveal_main_ui(),
            },
        }
    }
}

impl Launcher {
    /// Whether the game's own loading may go ahead: only once the launcher
    /// has handed over.
    pub fn content_loading_allowed(&self) -> (r: bool)
        ensures
            r == (self.state is LoadingContent || self.state is Loaded),
    {
        match self.state {
            LauncherState::LoadingContent | LauncherState::Loaded => true,
            _ => false,
        }
    }

    /// Whether the host is to sample the controller before the next `tick`:
    /// in every state but the first, the loading one and the last.
    pub fn needs_input_update(&self) -> (r: bool)
        ensures
            r == !(self.state is Initializing || self.state is LoadingContent
                || self.state is Loaded),
    {
        match self.state {
            LauncherState::Initializing | LauncherState::LoadingContent | LauncherState::Loaded =>
                false,
            _ => true,
        }
    }

    /// Begins the interactive flow: the check for updates that the host has
    /// started under the name `check` is now awaited. From any state but the
    /// first nothing happens.
    pub fn start_update_check(&mut self, check: u64) -> (commands: Vec<Command>)
        ensures
            final(self).modpacks == old(self).modpacks,
            final(self).loaded_modpack == old(self).loaded_modpack,
            final(self).selection_index == old(self).selection_index,
            final(self).splash_image == old(self).splash_image,
            old(self).state is Initializing ==> final(self).state
                == LauncherState::CheckingForUpdate(check) && commands@ == seq![
                Command::DisplaySelection,
                Command::ShowMainUi(false),
                Command::ShowPendingOperationUi(true),
            ],
            !(old(self).state is Initializing) ==> final(self).state == old(self).state
                && commands@ == Seq::<Command>::empty(),
    {
        let mut commands: Vec<Command> = Vec::new();
        if let LauncherState::Initializing = self.state {
            self.state = LauncherState::CheckingForUpdate(check);
            commands.push(Command::DisplaySelection);
            commands.push(Command::ShowMainUi(false));
            commands.push(Command::ShowPendingOperationUi(true));
            assert(commands@ =~= seq![
                Command::DisplaySelection,
                Command::ShowMainUi(false),
                Command::ShowPendingOperationUi(true),
            ]);
        }
        commands
    }

    /// The place of the first valid modpack with the id `id`.
    pub fn find_modpack(&self, id: &str) -> (r: Option<usize>)
        ensures
            match r {
                Some(i) => i < self.modpacks@.len() && first_with_id(
                    self.modpacks@,
                    id@,
                    self.modpacks@.len() as int,
                ) == Some(i as int),
                None => first_with_id(self.modpacks@, id@, self.modpacks@.len() as int) is None,
            },
    {
        let wanted = String::from_str(id);
        let mut i: usize = 0;
        while i < self.modpacks.len()
            invariant
                i <= self.modpacks@.len(),
                wanted@ == id@,
                first_with_id(self.modpacks@, id@, i as int) is None,
            decreases self.modpacks@.len() - i,
        {
            if let ModpackLoadResult::Success(modpack) = &self.modpacks[i] {
                if modpack.metadata.id == wanted {
                    proof {
                        lemma_first_with_id_prefix(
                            self.modpacks@,
                            id@,
                            i + 1,
                            self.modpacks@.len() as int,
                        );
                    }
                    return Some(i);
                }
            }
            i += 1;
        }
        None
    }

    /// Launches without asking, as the configuration demands.
    ///
    /// For the id of the unmodified game the launcher is done at once. For the
    /// id of a valid modpack of the catalog, the first such is loaded and the
    /// launcher is done. For any other id the user is asked after all: the
    /// launcher goes to the selection. From any state but the first nothing
    /// happens.
    pub fn auto_launch(&mut self, id: &str) -> (commands: Vec<Command>)
        ensures
            final(self).modpacks == old(self).modpacks,
            final(self).selection_index == old(self).selection_index,
            final(self).splash_image == old(self).splash_image,
            ({
                let step = auto_launch_step(
                    old(self).state,
                    old(self).modpacks@,
                    old(self).loaded_modpack,
                    old(self).selection_index as int,
                    id@,
                );
                &&& final(self).state == step.state
                &&& final(self).loaded_modpack == step.loaded
                &&& commands@ == step.commands
            }),
            old(self).wf() ==> final(self).wf(),
    {
        let mut commands: Vec<Command> = Vec::new();
        if let LauncherState::Initializing = self.state {
            if String::from_str(id) == String::from_str(VANILLA_ID) {
                self.state = LauncherState::Loaded;
            } else {
                match self.find_modpack(id) {
                    Some(i) => {
                        proof {
                            lemma_first_with_id(self.modpacks@, id@, self.modpacks@.len() as int);
                        }
                        self.loaded_modpack = Some(i);
                        self.state = LauncherState::Loaded;
                        commands.push(Command::LoadModpack(i));
                        assert(commands@ =~= seq![Command::LoadModpack(i)]);
                    },
                    None => {
                        self.state = LauncherState::SelectingModpack;
                        commands.push(Command::DisplaySelection);
                        commands.push(Command::ShowPendingOperationUi(false));
                        commands.push(Command::ShowMainUi(true));
                        assert(commands@ =~= seq![Command::DisplaySelection] + reveal_main_ui());
                    },
                }
            }
        }
        commands
    }

    /// The game's main loop has started: the launcher is done and gives up
    /// what it holds. The screen, the vanilla icon and the splash image, if
    /// one is on show, are released by the host; the icons of the catalog are
    /// forgotten here. Where the launcher is done already nothing happens.
    pub fn on_main_loop_start(&mut self) -> (commands: Vec<Command>)
        ensures
            final(self).state is Loaded,
            final(self).loaded_modpack == old(self).loaded_modpack,
            final(self).selection_index == old(self).selection_index,
            old(self).state is Loaded ==> final(self).modpacks == old(self).modpacks
                && final(self).splash_image == old(self).splash_image && commands@ == Seq::<
                Command,
            >::empty(),
            !(old(self).state is Loaded) ==> {
                &&& final(self).splash_image is None
                &&& commands@ == teardown_commands(old(self).splash_image is Some)
                &&& final(self).modpacks@.len() == old(self).modpacks@.len()
                &&& forall|i: int|
                    0 <= i < old(self).modpacks@.len() ==> #[trigger] final(self).modpacks@[i]
                        == without_icon(old(self).modpacks@[i])
            },
            old(self).wf() ==> final(self).wf(),
    {
        let mut commands: Vec<Command> = Vec::new();
        if let LauncherState::Loaded = self.state {
            return commands;
        }
        self.state = LauncherState::Loaded;
        commands.push(Command::DestroyLauncherUi);
        commands.push(Command::ReleaseVanillaIcon);
        if self.splash_image.is_some() {
            commands.push(Command::ReleaseSplashImage);
            self.splash_image = None;
        }
        assert(commands@ =~= teardown_commands(old(self).splash_image is Some));
        let mut i: usize = 0;
        while i < self.modpacks.len()
            invariant
                i <= self.modpacks@.len(),
                self.modpacks@.len() == old(self).modpacks@.len(),
                self.state is Loaded,
                self.splash_image is None,
                self.loaded_modpack == old(self).loaded_modpack,
                self.selection_index == old(self).selection_index,
                forall|j: int|
                    0 <= j < i ==> #[trigger] self.modpacks@[j] == without_icon(
                        old(self).modpacks@[j],
                    ),
                forall|j: int|
                    i <= j < self.modpacks@.len() ==> #[trigger] self.modpacks@[j] == old(
                        self,
                    ).modpacks@[j],
            decreases self.modpacks@.len() - i,
        {
            if let ModpackLoadResult::Success(modpack) = &mut self.modpacks[i] {
                let _ = modpack.unload_icon();
            }
            i += 1;
        }
        commands
    }
}

/// A modpack found among the first `n` entries is the one found among the
/// first `m`, for `m` beyond `n`.
pub proof fn lemma_first_with_id_prefix(
    modpacks: Seq<ModpackLoadResult>,
    id: Seq<char>,
    n: int,
    m: int,
)
    requires
        0 <= n <= m,
        first_with_id(modpacks, id, n) is Some,
    ensures
        first_with_id(modpacks, id, m) == first_with_id(modpacks, id, n),
    decreases m - n,
{
    if n < m {
        lemma_first_with_id_prefix(modpacks, id, n, m - 1);
    }
}

/// However the buttons are held, a selection within the catalog stays within
/// it: a step of the machine never takes it below zero or beyond the
/// catalog's length.
pub proof fn lemma_selection_stays_in_bounds(
    state: LauncherState,
    modpacks: Seq<ModpackLoadResult>,
    loaded: Option<usize>,
    selection: int,
    input: TickInput,
)
    requires
        0 <= selection <= modpacks.len(),
    ensures
        0 <= tick_step(state, modpacks, loaded, selection, input).selection <= modpacks.len(),
{
}

/// Whether a step of `tick` may lead from `from` to `to`: the machine stays
/// where it is, or goes from the check for updates to the selection, from
/// the selection to the closing animation, or from the closing animation to
/// the loading of the game.
pub open spec fn may_follow(from: LauncherState, to: LauncherState) -> bool {
    ||| from == to
    ||| from is CheckingForUpdate && to is SelectingModpack
    ||| from is SelectingModpack && to is PreloadAnimating
    ||| from is PreloadAnimating && to is LoadingContent
}

/// A step of `tick` goes along the machine's transitions and no other way.
/// Before the check for updates has begun, while the game loads and once it
/// runs, a step changes nothing and asks nothing of the host.
pub proof fn lemma_tick_follows_transitions(
    state: LauncherState,
    modpacks: Seq<ModpackLoadResult>,
    loaded: Option<usize>,
    selection: int,
    input: TickInput,
)
    ensures
        may_follow(state, tick_step(state, modpacks, loaded, selection, input).state),
        state is Initializing || state is LoadingContent || state is Loaded ==> tick_step(
            state,
            modpacks,
            loaded,
            selection,
            input,
        ) == (Step { state, selection, loaded, commands: Seq::<Command>::empty() }),
{
}

/// The check for updates never holds the user up: once its outcome has
/// arrived, be it an update, none, or an error, the next step leads to the
/// selection and shows the main screen.
pub proof fn lemma_check_outcome_leads_to_selection(
    check: u64,
    modpacks: Seq<ModpackLoadResult>,
    loaded: Option<usize>,
    selection: int,
    input: TickInput,
)
    requires
        input.update_check is Some,
    ensures
        ({
            let step = tick_step(
                LauncherState::CheckingForUpdate(check),
                modpacks,
                loaded,
                selection,
                input,
            );
            &&& step.state is SelectingModpack
            &&& step.selection == selection
            &&& step.commands.len() >= 2
            &&& step.commands.last() == Command::ShowMainUi(true)
        }),
{
}

/// The selection is left only for a choice that can be loaded: the step
/// from the selection to the closing animation is taken only with the
/// confirm button down, no animation playing, and a selection that is the
/// unmodified game or a valid modpack.
pub proof fn lemma_confirm_needs_loadable(
    modpacks: Seq<ModpackLoadResult>,
    loaded: Option<usize>,
    selection: int,
    input: TickInput,
)
    ensures
        ({
            let step = tick_step(
                LauncherState::SelectingModpack,
                modpacks,
                loaded,
                selection,
                input,
            );
            step.state is PreloadAnimating ==> loadable(modpacks, step.selection) && pressed(
                input.pad.down,
                Button::A,
            ) && !input.animation_playing
        }),
{
}

/// How many icons the selection screen shows side by side. The one in the
/// middle is the selection.
pub const ICON_SLOTS: usize = 7;

/// The title of the unmodified game.
pub const VANILLA_TITLE: &'static str = "Pok\u{e9}mon Mystery Dungeon Rescue Team DX\nNintendo";

/// How the title of a folder that is no valid modpack begins.
pub const BROKEN_TITLE: &'static str = "Broken modpack\n";

/// How a version label begins.
pub const VERSION_LABEL: &'static str = "Ver. ";

/// What one of the icon places of the selection screen shows.
#[derive(Copy, Clone, Debug, PartialEq, Eq, Structural)]
pub enum IconSlot {
    /// Nothing: the place lies before the unmodified game or behind the last
    /// entry.
    Hidden,
    /// The icon of the unmodified game.
    Vanilla,
    /// The icon of the valid modpack at this place of the catalog.
    Modpack(usize),
    /// An empty frame, for the invalid entry at this place of the catalog.
    Broken(usize),
}

/// What the selection screen shows.
#[derive(Debug, Clone, PartialEq, Eq)]
pub struct SelectionDisplay {
    /// Two lines: the name, then the author.
    pub title: String,
    /// The version, where the selection has one.
    pub version_label: Option<String>,
    /// The icon places from left to right.
    pub icons: Vec<IconSlot>,
}

/// The title for the selection `selection`, which is within the catalog.
pub open spec fn selection_title(modpacks: Seq<ModpackLoadResult>, selection: int) -> Seq<char> {
    if selection == 0 {
        VANILLA_TITLE@
    } else {
        match modpacks[selection - 1] {
            ModpackLoadResult::Success(modpack) => modpack.metadata.name@ + seq!['\n']
                + modpack.metadata.author@,
            ModpackLoadResult::Invalid(invalid) => BROKEN_TITLE@ + last_component(invalid.path@),
        }
    }
}

/// The version label for the selection `selection`, which is within the
/// catalog: that of a valid modpack, and none for anything else.
pub open spec fn selection_version_label(
    modpacks: Seq<ModpackLoadResult>,
    selection: int,
) -> Option<Seq<char>> {
    if selection == 0 {
        None
    } else {
        match modpacks[selection - 1] {
            ModpackLoadResult::Success(modpack) => Some(
                VERSION_LABEL@ + version_text(modpack.metadata.version@),
            ),
            ModpackLoadResult::Invalid(_) => None,
        }
    }
}

/// What the icon place `slot` shows when the selection is `selection`. The
/// places show the selections from three before the current one to three
/// after it.
pub open spec fn icon_slot(
    modpacks: Seq<ModpackLoadResult>,
    selection: int,
    slot: int,
) -> IconSlot {
    let shown = slot - 3 + selection;
    if shown < 0 || shown > modpacks.len() {
        IconSlot::Hidden
    } else if shown == 0 {
        IconSlot::Vanilla
    } else if modpacks[shown - 1] is Success {
        IconSlot::Modpack((shown - 1) as usize)
    } else {
        IconSlot::Broken((shown - 1) as usize)
    }
}

/// Whether `r`, with the splash image `after` kept where `before` was, is an
/// outcome that showing the splash image from a file with content `content`
/// can have: the picture is kept and shown, or loading it failed and what was
/// kept stays.
pub open spec fn splash_outcome(
    content: FileContent,
    before: Option<Image>,
    after: Option<Image>,
    r: Result<bool, ImageLoadError>,
) -> bool {
    match r {
        Ok(shown) => {
            &&& shown
            &&& after is Some
            &&& picture_outcome(content, SPLASH_WIDTH, SPLASH_HEIGHT, Ok(after->0))
        },
        Err(error) => {
            &&& after == before
            &&& picture_outcome(content, SPLASH_WIDTH, SPLASH_HEIGHT, Err(error))
        },
    }
}

/// The view of a version label.
pub open spec fn label_view(label: Option<String>) -> Option<Seq<char>> {
    match label {
        Some(text) => Some(text@),
        None => None,
    }
}

impl Launcher {
    /// What the icon place `slot` shows.
    fn icon_slot_at(&self, slot: usize) -> (r: IconSlot)
        requires
            self.wf(),
            slot < ICON_SLOTS,
        ensures
            r == icon_slot(self.modpacks@, self.selection_index as int, slot as int),
    {
        let shown: usize = if slot < 3 {
            let back: usize = 3 - slot;
            if self.selection_index < back {
                return IconSlot::Hidden;
            }
            self.selection_index - back
        } else {
            let ahead: usize = slot - 3;
            if ahead > self.modpacks.len() - self.selection_index {
                return IconSlot::Hidden;
            }
            self.selection_index + ahead
        };
        if shown == 0 {
            IconSlot::Vanilla
        } else {
            match &self.modpacks[shown - 1] {
                ModpackLoadResult::Success(_) => IconSlot::Modpack(shown - 1),
                ModpackLoadResult::Invalid(_) => IconSlot::Broken(shown - 1),
            }
        }
    }

    /// What the selection screen is to show: the title and the version label
    /// of the selection, and the seven icon places around it.
    pub fn show_selected_modpack(&self) -> (r: SelectionDisplay)
        requires
            self.wf(),
        ensures
            r.title@ == selection_title(self.modpacks@, self.selection_index as int),
            label_view(r.version_label) == selection_version_label(
                self.modpacks@,
                self.selection_index as int,
            ),
            r.icons@.len() == ICON_SLOTS,
            forall|slot: int|
                0 <= slot < ICON_SLOTS ==> #[trigger] r.icons@[slot] == icon_slot(
                    self.modpacks@,
                    self.selection_index as int,
                    slot,
                ),
    {
        proof {
            reveal_strlit("\n");
        }
        let (title, version_label) = if self.selection_index == 0 {
            (String::from_str(VANILLA_TITLE), None)
        } else {
            match &self.modpacks[self.selection_index - 1] {
                ModpackLoadResult::Success(modpack) => {
                    let mut title = modpack.metadata.name.clone();
                    title.append("\n");
                    title.append(modpack.metadata.author.as_str());
                    let mut label = String::from_str(VERSION_LABEL);
                    let version = modpack.metadata.version.to_text();
                    label.append(version.as_str());
                    (title, Some(label))
                },
                ModpackLoadResult::Invalid(invalid) => {
                    let mut title = String::from_str(BROKEN_TITLE);
                    let folder = file_name(invalid.path.as_str());
                    title.append(folder.as_str());
                    (title, None)
                },
            }
        };
        assert(title@ =~= selection_title(self.modpacks@, self.selection_index as int));
        let mut icons: Vec<IconSlot> = Vec::new();
        let mut slot: usize = 0;
        while slot < ICON_SLOTS
            invariant
                self.wf(),
                slot <= ICON_SLOTS,
                icons@.len() == slot,
                forall|k: int|
                    0 <= k < slot ==> #[trigger] icons@[k] == icon_slot(
                        self.modpacks@,
                        self.selection_index as int,
                        k,
                    ),
            decreases ICON_SLOTS - slot,
        {
            icons.push(self.icon_slot_at(slot));
            slot += 1;
        }
        SelectionDisplay { title, version_label, icons }
    }
}

impl Launcher {
    /// What the manifest of the loaded modpack says; `None` where the
    /// unmodified game runs or nothing is loaded yet.
    pub fn current_modpack_metadata(&self) -> (r: Option<&ModpackMetadata>)
        requires
            self.wf(),
        ensures
            match self.loaded_modpack {
                Some(i) => r == Some(&self.modpacks@[i as int]->Success_0.metadata),
                None => r is None,
            },
    {
        match self.loaded_modpack {
            Some(i) => match &self.modpacks[i] {
                ModpackLoadResult::Success(modpack) => Some(&modpack.metadata),
                ModpackLoadResult::Invalid(_) => None,
            },
            None => None,
        }
    }

    /// Registers and commits the plugins of the loaded modpack, as
    /// `Modpack::load_plugins` does; `None` where no modpack is loaded.
    pub fn load_modpack<R: Fn(&str) -> bool, C: FnOnce() -> bool>(
        &self,
        listing: &Option<Vec<DirectoryItem>>,
        register: R,
        commit: C,
    ) -> (r: Option<Result<usize, PluginError>>)
        requires
            self.wf(),
            forall|p: &str| register.requires((p,)),
            commit.requires(()),
        ensures
            match self.loaded_modpack {
                Some(i) => r is Some && plugins_outcome(
                    self.modpacks@[i as int]->Success_0.plugin_folder(),
                    listed(*listing),
                    register,
                    commit,
                    r->0,
                ),
                None => r is None,
            },
    {
        match self.loaded_modpack {
            Some(i) => match &self.modpacks[i] {
                ModpackLoadResult::Success(modpack) => Some(
                    modpack.load_plugins(listing, register, commit),
                ),
                ModpackLoadResult::Invalid(_) => None,
            },
            None => None,
        }
    }

    /// The icon of the catalog's entry at `index`, loaded at the first call
    /// and remembered from then on, as `Modpack::load_icon` does; `None`
    /// where the entry is no valid modpack. Nothing but that entry's icon
    /// changes.
    pub fn load_icon<F: FnOnce(&str) -> FileContent>(&mut self, index: usize, read: F) -> (r:
        Option<&Result<Image, ImageLoadError>>)
        requires
            is_success(old(self).modpacks@, index as int) && modpack_at(
                old(self).modpacks@,
                index as int,
            ).icon is None ==> may_read(
                read,
                modpack_at(old(self).modpacks@, index as int).icon_path(),
            ),
        ensures
            final(self).state == old(self).state,
            final(self).loaded_modpack == old(self).loaded_modpack,
            final(self).selection_index == old(self).selection_index,
            final(self).splash_image == old(self).splash_image,
            !is_success(old(self).modpacks@, index as int) ==> {
                &&& r is None
                &&& final(self).modpacks@ == old(self).modpacks@
            },
            is_success(old(self).modpacks@, index as int) ==> {
                let before = modpack_at(old(self).modpacks@, index as int);
                &&& r is Some
                &&& final(self).modpacks@ == old(self).modpacks@.update(
                    index as int,
                    ModpackLoadResult::Success(
                        Modpack {
                            metadata: before.metadata,
                            path: before.path,
                            icon: Some(*r->0),
                        },
                    ),
                )
                &&& memoized(before.icon, *r->0) == Some(*r->0)
                &&& before.icon is None ==> exists|content: FileContent|
                    was_read(read, before.icon_path(), content) && picture_outcome(
                        content,
                        ICON_WIDTH,
                        ICON_HEIGHT,
                        *r->0,
                    )
            },
            old(self).wf() ==> final(self).wf(),
    {
        if index >= self.modpacks.len() {
            return None;
        }
        if let ModpackLoadResult::Invalid(_) = &self.modpacks[index] {
            return None;
        }
        match &mut self.modpacks[index] {
            ModpackLoadResult::Success(modpack) => Some(modpack.load_icon(read)),
            ModpackLoadResult::Invalid(_) => None,
        }
    }

    /// Loads the splash image of the selected modpack and keeps it for
    /// showing.
    ///
    /// With the unmodified game or an invalid entry selected there is nothing
    /// to show, and the result is `Ok(false)`. Else the image is read through
    /// `read`: where that gives a picture of the right size it is kept and the
    /// result is `Ok(true)`; where it fails the result is the error, and what
    /// was kept before stays.
    pub fn show_splash_image<F: FnOnce(&str) -> FileContent>(&mut self, read: F) -> (r: Result<
        bool,
        ImageLoadError,
    >)
        requires
            old(self).selection_index > 0 && is_success(
                old(self).modpacks@,
                old(self).selection_index - 1,
            ) ==> may_read(
                read,
                modpack_at(old(self).modpacks@, old(self).selection_index - 1).splash_path(),
            ),
        ensures
            final(self).state == old(self).state,
            final(self).loaded_modpack == old(self).loaded_modpack,
            final(self).selection_index == old(self).selection_index,
            final(self).modpacks == old(self).modpacks,
            !(old(self).selection_index > 0 && is_success(
                old(self).modpacks@,
                old(self).selection_index - 1,
            )) ==> {
                &&& r == Ok::<bool, ImageLoadError>(false)
                &&& final(self).splash_image == old(self).splash_image
            },
            old(self).selection_index > 0 && is_success(
                old(self).modpacks@,
                old(self).selection_index - 1,
            ) ==> exists|content: FileContent|
                was_read(
                    read,
                    modpack_at(old(self).modpacks@, old(self).selection_index - 1).splash_path(),
                    content,
                ) && splash_outcome(
                    content,
                    old(self).splash_image,
                    final(self).splash_image,
                    r,
                ),
            old(self).wf() ==> final(self).wf(),
    {
        let loaded = match self.get_current_modpack() {
            None => {
                return Ok(false);
            },
            Some(modpack) => modpack.load_splash_image(read),
        };
        let ghost path = modpack_at(self.modpacks@, self.selection_index - 1).splash_path();
        let ghost content = choose|content: FileContent|
            was_read(read, path, content) && picture_outcome(
                content,
                SPLASH_WIDTH,
                SPLASH_HEIGHT,
                loaded,
            );
        let r = match loaded {
            Ok(image) => {
                self.splash_image = Some(image);
                Ok(true)
            },
            Err(error) => Err(error),
        };
        assert(splash_outcome(content, old(self).splash_image, self.splash_image, r));
        r
    }
}

} // verus!
