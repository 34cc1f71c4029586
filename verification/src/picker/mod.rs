use vstd::prelude::*;
use crate::configs::{Config, PickerColorConfig};
use crate::github::{name_of_line, name_of_line_spec, remote_selection, remote_selection_spec};
use crate::matcher::{
    inject, injected, item_count, matched_count, matched_item, matcher_pattern, new_matcher,
    parsed_pattern, set_pattern, snapshot_matches, snapshot_total, snapshot_within, tick,
};
use crate::picker::input::InputLine;
use crate::picker::selection::{
    do_move_down, do_move_up, do_page_down, do_page_up, move_down_spec, move_up_spec,
    page_down_key_spec, page_up_key_spec, settle, settled, step_down, step_up,
};
use crate::state::{StateManager, StoreView};
use crate::text::{
    contains_ignoring_case, decimal, decimal_spec, first_occurrences, text_contains_ignoring_case,
    texts,
};

pub mod input;
pub mod preview;
pub mod selection;

verus! {

/// What the preview pane shows for the selected item.
#[derive(Debug, Clone, Copy, PartialEq, Eq, Structural)]
pub enum Preview {
    SessionPane,
    WindowPane,
    Directory,
}

/// Where the input line stands relative to the list.
#[derive(Debug, PartialEq, Eq, Clone, Copy, Structural)]
pub enum InputPosition {
    Top,
    Bottom,
}

impl Default for InputPosition {
    fn default() -> (position: InputPosition)
        ensures
            position == InputPosition::Bottom,
    {
        InputPosition::Bottom
    }
}

/// A source of items for the picker: the local scan, or the catalogue of a remote profile.
#[derive(Debug, Clone, PartialEq, Eq)]
pub enum PickerMode {
    Local,
    GitHub(String),
}

/// The profile of a remote mode; none for the local mode.
pub open spec fn mode_profile(mode: PickerMode) -> Option<Seq<char>> {
    match mode {
        PickerMode::Local => None,
        PickerMode::GitHub(name) => Some(name@),
    }
}

/// The profiles of a list of modes, in order.
pub open spec fn mode_profiles(modes: Seq<PickerMode>) -> Seq<Option<Seq<char>>> {
    modes.map_values(|mode: PickerMode| mode_profile(mode))
}

/// The tag under which a mode is remembered as the active one.
pub open spec fn mode_tag(mode: PickerMode) -> Seq<char> {
    match mode {
        PickerMode::Local => "local"@,
        PickerMode::GitHub(name) => name@,
    }
}

/// The name under which a mode is shown.
pub open spec fn display_name_spec(mode: PickerMode) -> Seq<char> {
    match mode {
        PickerMode::Local => "Local repos"@,
        PickerMode::GitHub(name) => "Github - "@ + name@,
    }
}

impl PickerMode {
    pub fn display_name(&self) -> (name: String)
        ensures
            name@ == display_name_spec(*self),
    {
        match self {
            PickerMode::Local => "Local repos".to_string(),
            PickerMode::GitHub(profile_name) => {
                let mut name = "Github - ".to_string();
                name.push_str(profile_name.as_str());
                name
            },
        }
    }

    /// The tag under which the mode is remembered as the active one.
    pub fn tag(&self) -> (tag: String)
        ensures
            tag@ == mode_tag(*self),
    {
        match self {
            PickerMode::Local => "local".to_string(),
            PickerMode::GitHub(profile_name) => profile_name.clone(),
        }
    }

    /// Whether both are the local mode, or remote modes of the same profile.
    pub fn same_as(&self, other: &PickerMode) -> (same: bool)
        ensures
            same == (mode_profile(*self) == mode_profile(*other)),
    {
        match (self, other) {
            (PickerMode::Local, PickerMode::Local) => true,
            (PickerMode::GitHub(a), PickerMode::GitHub(b)) => *a.as_str() == *b.as_str(),
            _ => false,
        }
    }

    /// A copy of the mode.
    pub fn duplicate(&self) -> (copy: PickerMode)
        ensures
            copy == *self,
    {
        match self {
            PickerMode::Local => PickerMode::Local,
            PickerMode::GitHub(profile_name) => PickerMode::GitHub(profile_name.clone()),
        }
    }
}

/// The names of the configured remote profiles, in order.
pub open spec fn profile_names(config: Config) -> Seq<Seq<char>> {
    match config.github_profiles {
        Some(profiles) => profiles@.map_values(|p: crate::configs::GitHubProfile| p.name@),
        None => seq![],
    }
}

/// The modes that a configuration offers: the local mode, and a remote mode for each
/// profile name, a name that occurs twice counting once.
pub open spec fn available_profiles(config: Config) -> Seq<Option<Seq<char>>> {
    seq![None] + first_occurrences(profile_names(config)).map_values(
        |name: Seq<char>| Some(name),
    )
}

/// The modes that the configuration offers.
pub fn create_available_modes(config: &Config) -> (modes: Vec<PickerMode>)
    ensures
        mode_profiles(modes@) == available_profiles(*config),
{
    let mut modes: Vec<PickerMode> = Vec::new();
    modes.push(PickerMode::Local);
    let mut seen: Vec<String> = Vec::new();
    let ghost names = profile_names(*config);
    if let Some(profiles) = &config.github_profiles {
        let mut i: usize = 0;
        assert(names.take(0) =~= Seq::<Seq<char>>::empty());
        assert(mode_profiles(modes@) =~= seq![None] + first_occurrences(names.take(0)).map_values(
            |name: Seq<char>| Some(name),
        ));
        while i < profiles.len()
            invariant
                i <= profiles.len(),
                config.github_profiles == Some(*profiles),
                names == profile_names(*config),
                texts(seen@) == first_occurrences(names.take(i as int)),
                mode_profiles(modes@) == seq![None] + first_occurrences(
                    names.take(i as int),
                ).map_values(|name: Seq<char>| Some(name)),
            decreases profiles.len() - i,
        {
            let ghost before = first_occurrences(names.take(i as int));
            let ghost modes_before = mode_profiles(modes@);
            proof {
                assert(names.take(i + 1).drop_last() =~= names.take(i as int));
                assert(names.take(i + 1).last() == profiles[i as int].name@);
            }
            if crate::text::position_of(&seen, profiles[i].name.as_str()).is_none() {
                seen.push(profiles[i].name.clone());
                modes.push(PickerMode::GitHub(profiles[i].name.clone()));
                proof {
                    let name = profiles[i as int].name@;
                    assert(texts(seen@) =~= before.push(name));
                    assert(mode_profiles(modes@) =~= modes_before.push(Some(name)));
                    assert(before.push(name).map_values(|name: Seq<char>| Some(name)) =~= before.map_values(
                        |name: Seq<char>| Some(name),
                    ).push(Some(name)));
                    assert(modes_before.push(Some(name)) =~= seq![None] + before.push(name).map_values(
                        |name: Seq<char>| Some(name),
                    ));
                }
            }
            i += 1;
        }
        assert(names.take(profiles.len() as int) =~= names);
    } else {
        assert(mode_profiles(modes@) =~= available_profiles(*config));
    }
    modes
}

/// The first position in `modes` of a mode with the tag `tag`.
pub open spec fn tagged_position(modes: Seq<PickerMode>, tag: Seq<char>) -> Option<int>
    decreases modes.len(),
{
    if modes.len() == 0 {
        None
    } else if mode_tag(modes[0]) == tag {
        Some(0)
    } else {
        match tagged_position(modes.drop_first(), tag) {
            Some(i) => Some(i + 1),
            None => None,
        }
    }
}

/// The mode in which the picker starts: the first offered mode whose tag is the one that
/// was remembered; the local mode where nothing was remembered or no such mode is
/// offered.
pub open spec fn initial_mode_spec(active: Option<String>, modes: Seq<PickerMode>) -> PickerMode {
    match active {
        Some(tag) => match tagged_position(modes, tag@) {
            Some(i) => modes[i],
            None => PickerMode::Local,
        },
        None => PickerMode::Local,
    }
}

/// The mode in which the picker starts.
pub fn initial_mode(active: &Option<String>, modes: &Vec<PickerMode>) -> (mode: PickerMode)
    ensures
        mode == initial_mode_spec(*active, modes@),
{
    match active {
        Some(tag) => {
            let mut i: usize = 0;
            assert(modes@.skip(0) =~= modes@);
            while i < modes.len()
                invariant
                    i <= modes.len(),
                    *active == Some(*tag),
                    match tagged_position(modes@.skip(i as int), tag@) {
                        Some(k) => tagged_position(modes@, tag@) == Some(k + i),
                        None => tagged_position(modes@, tag@) is None,
                    },
                decreases modes.len() - i,
            {
                proof {
                    assert(modes@.skip(i as int)[0] == modes@[i as int]);
                    assert(modes@.skip(i as int).drop_first() =~= modes@.skip(i + 1));
                }
                let own = modes[i].tag();
                if own == *tag {
                    assert(tagged_position(modes@.skip(i as int), tag@) == Some(0int));
                    return modes[i].duplicate();
                }
                i += 1;
            }
            PickerMode::Local
        },
        None => PickerMode::Local,
    }
}

/// What a key stands for once the key map has been asked.
#[derive(Debug, Clone, Copy, PartialEq, Eq, Structural)]
pub enum PickerAction {
    Cancel,
    Confirm,
    SwitchMode,
    Refresh,
    Backspace,
    Delete,
    DeleteWord,
    DeleteToLineStart,
    DeleteToLineEnd,
    MoveUp,
    MoveDown,
    PageUp,
    PageDown,
    CursorLeft,
    CursorRight,
    MoveToLineStart,
    MoveToLineEnd,
    Noop,
}

/// The key that was pressed, as far as the picker tells keys apart.
#[derive(Debug, Clone, Copy, PartialEq, Eq, Structural)]
pub enum Key {
    Char(char),
    Tab,
    F(u8),
    Enter,
    Esc,
    Up,
    Down,
    Backspace,
    Other,
}

/// A key press: the key, and the action that the key map gives for it.
#[derive(Debug, Clone, Copy, PartialEq, Eq, Structural)]
pub struct KeyPress {
    pub key: Key,
    pub action: Option<PickerAction>,
}

/// What the picker shows on top of the list.
#[derive(Debug, Clone, PartialEq, Eq)]
pub enum UIState {
    /// The list and the input line; the user filters and selects.
    Normal,
    /// The list of modes, with a filter and a selection of its own.
    ModeSelection,
    /// A mode's items are being loaded; the text says which.
    Loading(String),
    /// Something failed; the text says what. Any key dismisses it.
    Error(String),
}

/// What is being loaded.
#[derive(Debug, Clone, PartialEq, Eq)]
pub enum BackgroundOp {
    Idle,
    LoadingLocal,
    LoadingGitHub(String),
    RefreshingCurrent,
}

/// What the caller is to do after the picker has handled an event.
#[derive(Debug, Clone, PartialEq, Eq)]
pub enum PickerEffect {
    /// Nothing; go on with the loop.
    Continue,
    /// Leave the loop with this answer; `None` stands for "no selection".
    Exit(Option<String>),
    /// Load the items of `mode`, past the cache where `force_refresh` is set, and hand
    /// the outcome to `finish_loading`.
    Load { mode: PickerMode, force_refresh: bool },
    /// Clone the repository `repo_name` of the remote profile `profile`, and hand the
    /// outcome to `finish_clone`.
    Clone { profile: String, repo_name: String },
}

/// Whether a mode passes the filter of the mode list: the filter is empty, or occurs in
/// the mode's name when letter case is set aside.
pub open spec fn mode_passes(mode: PickerMode, filter: Seq<char>) -> bool {
    filter.len() == 0 || contains_ignoring_case(display_name_spec(mode), filter)
}

/// The positions of the modes that pass the filter, in order.
pub open spec fn filtered_positions(modes: Seq<PickerMode>, filter: Seq<char>) -> Seq<int>
    decreases modes.len(),
{
    if modes.len() == 0 {
        seq![]
    } else {
        let init = filtered_positions(modes.drop_last(), filter);
        if mode_passes(modes.last(), filter) {
            init.push(modes.len() - 1)
        } else {
            init
        }
    }
}

proof fn lemma_filtered_positions(modes: Seq<PickerMode>, filter: Seq<char>)
    ensures
        filtered_positions(modes, filter).len() <= modes.len(),
        forall|k: int|
            0 <= k < filtered_positions(modes, filter).len() ==> 0 <= #[trigger] filtered_positions(
                modes,
                filter,
            )[k] < modes.len(),
    decreases modes.len(),
{
    if modes.len() > 0 {
        lemma_filtered_positions(modes.drop_last(), filter);
    }
}

/// The positions of the modes that pass the filter, in order.
pub fn filter_modes(modes: &Vec<PickerMode>, filter: &str) -> (positions: Vec<usize>)
    ensures
        crate::session::positions(positions@) == filtered_positions(modes@, filter@),
        positions@.len() <= modes@.len(),
        forall|k: int| 0 <= k < positions@.len() ==> #[trigger] positions@[k] < modes@.len(),
{
    let mut positions: Vec<usize> = Vec::new();
    let mut i: usize = 0;
    assert(modes@.take(0) =~= Seq::<PickerMode>::empty());
    while i < modes.len()
        invariant
            i <= modes.len(),
            crate::session::positions(positions@) =~= filtered_positions(
                modes@.take(i as int),
                filter@,
            ),
        decreases modes.len() - i,
    {
        proof {
            assert(modes@.take(i + 1).drop_last() =~= modes@.take(i as int));
            assert(modes@.take(i + 1).last() == modes@[i as int]);
        }
        let passes = if filter.is_empty() {
            true
        } else {
            let name = modes[i].display_name();
            text_contains_ignoring_case(name.as_str(), filter)
        };
        if passes {
            let ghost before = crate::session::positions(positions@);
            positions.push(i);
            assert(crate::session::positions(positions@) =~= before.push(i as int));
        }
        i += 1;
    }
    proof {
        assert(modes@.take(modes.len() as int) =~= modes@);
        lemma_filtered_positions(modes@, filter@);
        assert forall|k: int| 0 <= k < positions@.len() implies #[trigger] positions@[k] < modes@.len() by {
            assert(crate::session::positions(positions@)[k] == positions@[k]);
        }
    }
    positions
}

/// The title of the list: the mode, and how many of the items match. While the scan
/// is still going on the title says so.
pub open spec fn title_spec(mode: PickerMode, matched: u32, total: u32, scanning: bool) -> Seq<
    char,
> {
    if scanning {
        display_name_spec(mode) + " - \u{1F50D} "@ + decimal_spec(matched as nat) + "/"@
            + decimal_spec(total as nat) + " (scanning...)"@
    } else {
        display_name_spec(mode) + " - "@ + decimal_spec(matched as nat) + "/"@ + decimal_spec(
            total as nat,
        )
    }
}

/// The title of the list.
pub fn title(mode: &PickerMode, matched: u32, total: u32, scanning: bool) -> (text: String)
    ensures
        text@ == title_spec(*mode, matched, total, scanning),
{
    let mut text = mode.display_name();
    if scanning {
        text.push_str(" - \u{1F50D} ");
    } else {
        text.push_str(" - ");
    }
    text.push_str(decimal(matched as u64).as_str());
    text.push_str("/");
    text.push_str(decimal(total as u64).as_str());
    if scanning {
        text.push_str(" (scanning...)");
    }
    text
}

/// How the picker's area is divided between the list and the preview.
#[derive(Debug, Clone, Copy, PartialEq, Eq, Structural)]
pub struct PaneLayout {
    /// The panes stand side by side; otherwise one above the other.
    pub horizontal: bool,
    /// The list and the input line take the first pane; otherwise the second.
    pub picker_first: bool,
    pub input_position: InputPosition,
}

/// The division of an area of `width` by `height` cells: with a preview the panes stand
/// side by side where half the width is at least the height, and else one above the
/// other, the preview on top and the input line at the bottom; without a preview the
/// list has the area to itself.
pub open spec fn pane_layout_spec(
    preview: bool,
    width: u16,
    height: u16,
    input_position: InputPosition,
) -> PaneLayout {
    if preview && (width + 1) / 2 < height {
        PaneLayout { horizontal: false, picker_first: false, input_position: InputPosition::Bottom }
    } else {
        PaneLayout { horizontal: true, picker_first: true, input_position }
    }
}

pub fn pane_layout(preview: bool, width: u16, height: u16, input_position: InputPosition) -> (layout: PaneLayout)
    ensures
        layout == pane_layout_spec(preview, width, height, input_position),
{
    let half = width / 2 + width % 2;
    if preview && half < height {
        PaneLayout { horizontal: false, picker_first: false, input_position: InputPosition::Bottom }
    } else {
        PaneLayout { horizontal: true, picker_first: true, input_position }
    }
}

/// The number of lines that a page key moves by, for a list that is `list_height` lines
/// high: one less than the height, and at least one.
pub open spec fn page_size_spec(list_height: u16) -> usize {
    if list_height <= 2 {
        1
    } else {
        (list_height - 1) as usize
    }
}

pub fn page_size_for(list_height: u16) -> (size: usize)
    ensures
        size == page_size_spec(list_height),
{
    if list_height <= 2 {
        1
    } else {
        (list_height - 1) as usize
    }
}

/// The most that one turn of the matcher may take, in milliseconds.
pub const TICK_TIMEOUT_MS: u64 = 1000;

/// The longest wait for a key while items are still arriving, in milliseconds.
pub const POLL_MS_STREAMING: u64 = 50;

/// The longest wait for a key otherwise, in milliseconds.
pub const POLL_MS_IDLE: u64 = 100;

/// How long the loop waits for a key, in milliseconds.
pub fn poll_timeout(streaming: bool) -> (millis: u64)
    ensures
        millis == if streaming {
            POLL_MS_STREAMING
        } else {
            POLL_MS_IDLE
        },
{
    if streaming {
        POLL_MS_STREAMING
    } else {
        POLL_MS_IDLE
    }
}

/// What can be seen of a picker.
pub ghost struct PickerView {
    /// The items that the matcher holds, in the order of their arrival.
    pub items: Seq<Seq<char>>,
    /// The matches as the matcher's latest snapshot holds them, the best first.
    pub matches: Seq<Seq<char>>,
    /// How many items the matcher had taken up when its latest snapshot was taken.
    pub taken_up: nat,
    /// The pattern that the matcher matches against.
    pub pattern: Seq<Seq<char>>,
    /// What the preview pane shows for the selected item, where there is one.
    pub preview: Option<Preview>,
    /// The colours, where they were set.
    pub colors: Option<PickerColorConfig>,
    /// The position of the selected match in the list of matches.
    pub selection: Option<usize>,
    /// The filter that was typed, and where its cursor stands.
    pub filter: Seq<char>,
    pub cursor: nat,
    pub input_position: InputPosition,
    pub page_size: usize,
    /// Items of the local scan may still arrive.
    pub streaming: bool,
    /// How many items were handed over since the list was last replaced; the count stops
    /// at the greatest value.
    pub total_items_added: usize,
    pub current_mode: PickerMode,
    /// The mode that is being loaded, where one is.
    pub pending_mode: Option<PickerMode>,
    pub available_modes: Seq<PickerMode>,
    /// The state store, where the picker has one.
    pub store: Option<StoreView>,
    pub ui_state: UIState,
    pub background_op: BackgroundOp,
    /// The selection, filter and cursor of the mode list.
    pub mode_selection: usize,
    pub mode_filter: Seq<char>,
    pub mode_cursor: nat,
    pub status_message: Option<String>,
    pub error_message: Option<String>,
    /// The configured names of the keys that open the mode list and that reload.
    pub switch_mode_key: Seq<char>,
    pub refresh_key: Seq<char>,
}

/// The fuzzy picker: the matcher with its items, the filter line, the selection, and the
/// state machine of the overlays. Its caller reads the keys, draws, and does what the
/// effects ask for.
pub struct Picker {
    matcher: nucleo::Nucleo<String>,
    preview: Option<Preview>,
    colors: Option<PickerColorConfig>,
    selection: Option<usize>,
    input: InputLine,
    input_position: InputPosition,
    page_size: usize,
    streaming: bool,
    total_items_added: usize,
    current_mode: PickerMode,
    pending_mode: Option<PickerMode>,
    available_modes: Vec<PickerMode>,
    state_manager: Option<StateManager>,
    switch_mode_key: String,
    refresh_key: String,
    ui_state: UIState,
    background_op: BackgroundOp,
    mode_selection: usize,
    mode_filter: InputLine,
    status_message: Option<String>,
    error_message: Option<String>,
}

/// `count` and `more` added, or the greatest value where the sum is beyond it.
pub open spec fn counted(count: usize, more: nat) -> usize {
    if count + more > usize::MAX {
        usize::MAX
    } else {
        (count + more) as usize
    }
}

/// The text shown while the items of a mode are loaded.
pub open spec fn loading_text(mode: PickerMode) -> Seq<char> {
    match mode {
        PickerMode::Local => "Loading local repositories..."@,
        PickerMode::GitHub(name) => "Loading GitHub repositories for '"@ + name@ + "'..."@,
    }
}

/// What is going on while the items of `mode` are loaded for a switch to it.
pub open spec fn loading_op(mode: PickerMode) -> BackgroundOp {
    match mode {
        PickerMode::Local => BackgroundOp::LoadingLocal,
        PickerMode::GitHub(name) => BackgroundOp::LoadingGitHub(name),
    }
}

/// The text shown when the items of a mode could not be loaded for the given reason.
pub open spec fn load_error_text(mode: PickerMode, reason: Seq<char>) -> Seq<char> {
    match mode {
        PickerMode::Local => "Failed to load local repositories: "@ + reason,
        PickerMode::GitHub(_) => "Failed to load GitHub repositories: "@ + reason,
    }
}

/// The text shown when a repository could not be cloned for the given reason.
pub open spec fn clone_error_text(reason: Seq<char>) -> Seq<char> {
    "Error cloning repository: "@ + reason
}

impl View for Picker {
    type V = PickerView;

    closed spec fn view(&self) -> PickerView {
        PickerView {
            items: injected(self.matcher),
            matches: snapshot_matches(self.matcher),
            taken_up: snapshot_total(self.matcher),
            pattern: matcher_pattern(self.matcher),
            preview: self.preview,
            colors: self.colors,
            selection: self.selection,
            filter: self.input.text(),
            cursor: self.input.cursor(),
            input_position: self.input_position,
            page_size: self.page_size,
            streaming: self.streaming,
            total_items_added: self.total_items_added,
            current_mode: self.current_mode,
            pending_mode: self.pending_mode,
            available_modes: self.available_modes@,
            store: match self.state_manager {
                Some(manager) => Some(manager@),
                None => None,
            },
            ui_state: self.ui_state,
            background_op: self.background_op,
            mode_selection: self.mode_selection,
            mode_filter: self.mode_filter.text(),
            mode_cursor: self.mode_filter.cursor(),
            status_message: self.status_message,
            error_message: self.error_message,
            switch_mode_key: self.switch_mode_key@,
            refresh_key: self.refresh_key@,
        }
    }
}

impl Picker {
    /// The input lines are in order.
    pub closed spec fn wf(&self) -> bool {
        self.input.wf() && self.mode_filter.wf()
    }

    /// The view of a picker that was just made for a configuration and a state store:
    /// it offers the modes of the configuration and shows the mode that the store
    /// remembers; nothing is typed, selected, loaded or reported; its keys are those of the
    /// configuration.
    pub open spec fn starts(
        view: PickerView,
        input_position: InputPosition,
        state_manager: Option<StateManager>,
        config: Config,
        streaming: bool,
    ) -> bool {
        &&& view.matches == Seq::<Seq<char>>::empty()
        &&& view.taken_up == 0
        &&& view.pattern == parsed_pattern(Seq::<char>::empty())
        &&& view.colors is None
        &&& view.selection is None
        &&& view.filter == Seq::<char>::empty()
        &&& view.cursor == 0
        &&& view.input_position == input_position
        &&& view.page_size == 10
        &&& view.streaming == streaming
        &&& view.pending_mode is None
        &&& mode_profiles(view.available_modes) == available_profiles(config)
        &&& view.current_mode == initial_mode_spec(
            match state_manager {
                Some(manager) => manager.state().active_profile,
                None => None,
            },
            view.available_modes,
        )
        &&& view.store == match state_manager {
            Some(manager) => Some(manager@),
            None => None,
        }
        &&& view.ui_state == UIState::Normal
        &&& view.background_op == BackgroundOp::Idle
        &&& view.mode_selection == 0
        &&& view.mode_filter == Seq::<char>::empty()
        &&& view.mode_cursor == 0
        &&& view.status_message is None
        &&& view.error_message is None
        &&& view.switch_mode_key == match config.picker_switch_mode_key {
            Some(name) => name@,
            None => "tab"@,
        }
        &&& view.refresh_key == match config.picker_refresh_key {
            Some(name) => name@,
            None => "F5"@,
        }
    }

    fn build(
        preview: Option<Preview>,
        input_position: InputPosition,
        state_manager: Option<StateManager>,
        config: &Config,
        streaming: bool,
    ) -> (picker: Picker)
        ensures
            picker.wf(),
            Self::starts(picker@, input_position, state_manager, *config, streaming),
            picker@.items == Seq::<Seq<char>>::empty(),
            picker@.total_items_added == 0,
            picker@.preview == preview,
    {
        let available_modes = create_available_modes(config);
        let active = match &state_manager {
            Some(manager) => manager.get_active_profile(),
            None => None,
        };
        let current_mode = initial_mode(&active, &available_modes);
        Picker {
            matcher: new_matcher(),
            preview,
            colors: None,
            selection: None,
            input: InputLine::new(),
            input_position,
            page_size: 10,
            streaming,
            total_items_added: 0,
            current_mode,
            pending_mode: None,
            available_modes,
            state_manager,
            switch_mode_key: config.get_picker_switch_mode_key(),
            refresh_key: config.get_picker_refresh_key(),
            ui_state: UIState::Normal,
            background_op: BackgroundOp::Idle,
            mode_selection: 0,
            mode_filter: InputLine::new(),
            status_message: None,
            error_message: None,
        }
    }

    /// A picker over the items of `list`. It starts in the mode that the state store
    /// remembers, or in the local mode.
    pub fn new(
        list: &Vec<String>,
        preview: Option<Preview>,
        input_position: InputPosition,
        state_manager: Option<StateManager>,
        config: &Config,
    ) -> (picker: Picker)
        ensures
            picker.wf(),
            Self::starts(picker@, input_position, state_manager, *config, false),
            picker@.items == texts(list@),
            picker@.total_items_added == counted(0, list@.len()),
            picker@.preview == preview,
    {
        let mut picker = Self::build(preview, input_position, state_manager, config, false);
        picker.fill(list);
        assert(Seq::<Seq<char>>::empty() + texts(list@) =~= texts(list@));
        picker
    }

    /// A picker that starts without items and takes them as the scan finds them.
    pub fn new_streaming(
        preview: Option<Preview>,
        input_position: InputPosition,
        state_manager: Option<StateManager>,
        config: &Config,
    ) -> (picker: Picker)
        ensures
            picker.wf(),
            Self::starts(picker@, input_position, state_manager, *config, true),
            picker@.items == Seq::<Seq<char>>::empty(),
            picker@.total_items_added == 0,
            picker@.preview == preview,
    {
        Self::build(preview, input_position, state_manager, config, true)
    }

    fn fill(&mut self, list: &Vec<String>)
        ensures
            final(self)@ == (PickerView {
                items: old(self)@.items + texts(list@),
                total_items_added: counted(old(self)@.total_items_added, list@.len()),
                ..old(self)@
            }),
            final(self).wf() == old(self).wf(),
    {
        let mut i: usize = 0;
        assert(old(self)@.items + texts(list@).take(0) =~= old(self)@.items);
        while i < list.len()
            invariant
                i <= list.len(),
                self@ == (PickerView {
                    items: old(self)@.items + texts(list@).take(i as int),
                    ..old(self)@
                }),
                self.wf() == old(self).wf(),
            decreases list.len() - i,
        {
            inject(&mut self.matcher, list[i].clone());
            proof {
                assert(texts(list@).take(i + 1) =~= texts(list@).take(i as int).push(list[i as int]@));
                assert((old(self)@.items + texts(list@).take(i as int)).push(list[i as int]@)
                    =~= old(self)@.items + texts(list@).take(i + 1));
            }
            i += 1;
        }
        assert(texts(list@).take(list.len() as int) =~= texts(list@));
        self.total_items_added = self.total_items_added.saturating_add(list.len());
    }

    /// The same picker with the given colours.
    pub fn set_colors(self, colors: Option<PickerColorConfig>) -> (picker: Picker)
        ensures
            picker@ == (PickerView { colors, ..self@ }),
            picker.wf() == self.wf(),
    {
        let mut picker = self;
        picker.colors = colors;
        picker
    }

    pub fn colors(&self) -> (colors: Option<PickerColorConfig>)
        ensures
            colors == self@.colors,
    {
        self.colors
    }

    pub fn preview(&self) -> (preview: &Option<Preview>)
        ensures
            *preview == self@.preview,
    {
        &self.preview
    }

    /// The state store, to be written to its file after an effect that remembers a mode.
    pub fn state_manager(&self) -> (manager: &Option<StateManager>)
        ensures
            self@.store == match manager {
                Some(store) => Some(store@),
                None => None,
            },
    {
        &self.state_manager
    }

    pub fn ui_state(&self) -> (state: &UIState)
        ensures
            *state == self@.ui_state,
    {
        &self.ui_state
    }

    pub fn current_mode(&self) -> (mode: &PickerMode)
        ensures
            *mode == self@.current_mode,
    {
        &self.current_mode
    }

    pub fn available_modes(&self) -> (modes: &Vec<PickerMode>)
        ensures
            modes@ == self@.available_modes,
    {
        &self.available_modes
    }

    pub fn selection(&self) -> (selection: Option<usize>)
        ensures
            selection == self@.selection,
    {
        self.selection
    }

    /// The filter as it was typed.
    pub fn filter(&self) -> (text: String)
        ensures
            text@ == self@.filter,
    {
        self.input.as_string()
    }

    pub fn cursor_pos(&self) -> (cursor: usize)
        ensures
            cursor == self@.cursor,
    {
        self.input.cursor_pos()
    }

    /// The filter of the mode list as it was typed.
    pub fn mode_filter(&self) -> (text: String)
        ensures
            text@ == self@.mode_filter,
    {
        self.mode_filter.as_string()
    }

    pub fn mode_selection(&self) -> (selection: usize)
        ensures
            selection == self@.mode_selection,
    {
        self.mode_selection
    }

    pub fn is_streaming(&self) -> (streaming: bool)
        ensures
            streaming == self@.streaming,
    {
        self.streaming
    }

    pub fn error_message(&self) -> (message: &Option<String>)
        ensures
            *message == self@.error_message,
    {
        &self.error_message
    }

    pub fn status_message(&self) -> (message: &Option<String>)
        ensures
            *message == self@.status_message,
    {
        &self.status_message
    }

    /// How many items the picker was handed since its list was last replaced.
    pub fn total_items_added(&self) -> (total: usize)
        ensures
            total == self@.total_items_added,
    {
        self.total_items_added
    }

    /// The matches as the matcher's latest snapshot holds them, the best first.
    pub open spec fn matches(&self) -> Seq<Seq<char>> {
        self@.matches
    }

    /// How many items the matcher had taken up when its latest snapshot was taken.
    pub open spec fn taken_up(&self) -> nat {
        self@.taken_up
    }

    /// The pattern that the matcher matches against.
    pub open spec fn pattern(&self) -> Seq<Seq<char>> {
        self@.pattern
    }

    /// How many items match the filter, and how many items there are, as far as the
    /// matcher has come.
    pub fn counts(&self) -> (counts: (u32, u32))
        ensures
            counts.0 == self.matches().len(),
            counts.1 == self.taken_up(),
    {
        (matched_count(&self.matcher), item_count(&self.matcher))
    }

    /// The title of the list as it is now: the current mode, how many matches the
    /// matcher's snapshot holds, and how many items it had taken up.
    pub fn title(&self) -> (text: String)
        ensures
            text@ == title_spec(
                self@.current_mode,
                self@.matches.len() as u32,
                self@.taken_up as u32,
                self@.streaming,
            ),
    {
        let counts = self.counts();
        title(&self.current_mode, counts.0, counts.1, self.streaming)
    }

    /// The item that is selected: the match on which the selection stands, where it
    /// stands on one. It is one of the items that the picker holds.
    pub fn get_selected(&self) -> (selected: Option<String>)
        ensures
            selected is Some <==> (self@.selection matches Some(index) && index
                < self.matches().len()),
            selected matches Some(item) ==> item@ == self.matches()[self@.selection->0 as int],
            selected matches Some(item) ==> self@.items.contains(item@),
    {
        match self.selection {
            Some(index) => {
                if index >= matched_count(&self.matcher) as usize {
                    None
                } else {
                    matched_item(&self.matcher, index as u32)
                }
            },
            None => None,
        }
    }

    /// The best matches, the best first: all the matches where there are at most `limit`,
    /// else the first `limit` of them. Each is one of the items that the picker holds.
    pub fn matched_items(&self, limit: u32) -> (matches: Vec<String>)
        ensures
            texts(matches@) == self.matches().take(
                if self.matches().len() <= limit {
                    self.matches().len() as int
                } else {
                    limit as int
                },
            ),
            matches@.len() == if self.matches().len() <= limit {
                self.matches().len()
            } else {
                limit as nat
            },
            forall|i: int| 0 <= i < matches@.len() ==> self@.items.contains((#[trigger] matches@[i])@),
    {
        let count = matched_count(&self.matcher);
        let mut matches: Vec<String> = Vec::new();
        let mut n: u32 = 0;
        while n < count && n < limit
            invariant
                n <= limit,
                n <= count,
                count == snapshot_matches(self.matcher).len(),
                texts(matches@) =~= snapshot_matches(self.matcher).take(n as int),
                forall|i: int|
                    0 <= i < matches@.len() ==> injected(self.matcher).contains(
                        (#[trigger] matches@[i])@,
                    ),
            decreases limit - n,
        {
            if let Some(item) = matched_item(&self.matcher, n) {
                let ghost taken = texts(matches@);
                matches.push(item);
                assert(texts(matches@) =~= taken.push(item@));
                assert(snapshot_matches(self.matcher).take(n + 1) =~= snapshot_matches(
                    self.matcher,
                ).take(n as int).push(item@));
            }
            n += 1;
        }
        assert(texts(matches@).len() == matches@.len());
        matches
    }

    /// Puts `items` in place of all the items that the picker holds, as when names that
    /// were shown have changed. The matcher is a new one: it has no matches yet, and it
    /// matches against the filter. The selection starts anew; everything else stays.
    pub fn replace_items(&mut self, items: &Vec<String>)
        ensures
            final(self).wf() == old(self).wf(),
            final(self)@ == (PickerView {
                items: texts(items@),
                matches: Seq::empty(),
                taken_up: 0,
                pattern: parsed_pattern(old(self)@.filter),
                total_items_added: counted(0, items@.len()),
                selection: None,
                ..old(self)@
            }),
    {
        self.matcher = new_matcher();
        self.total_items_added = 0;
        self.fill(items);
        self.selection = None;
        let pattern = self.input.as_string();
        set_pattern(&mut self.matcher, pattern.as_str());
        assert(Seq::<Seq<char>>::empty() + texts(items@) =~= texts(items@));
    }

    /// Sets the size of a page from the height of the list.
    pub fn set_page_size(&mut self, list_height: u16)
        ensures
            final(self)@ == (PickerView { page_size: page_size_spec(list_height), ..old(self)@ }),
            final(self).wf() == old(self).wf(),
    {
        self.page_size = page_size_for(list_height);
    }

    /// The view once an item of the local scan was handed over: the item joins the
    /// items while the scan's items are awaited and the local mode is shown, and is
    /// dropped otherwise.
    pub open spec fn ingested(view: PickerView, item: Seq<char>) -> PickerView {
        if view.streaming && view.current_mode == PickerMode::Local {
            PickerView {
                items: view.items.push(item),
                total_items_added: counted(view.total_items_added, 1),
                ..view
            }
        } else {
            view
        }
    }

    /// Takes an item of the local scan. It joins the items only while the scan's items
    /// are awaited and the local mode is shown; an item that comes later is dropped.
    pub fn ingest(&mut self, item: String)
        ensures
            final(self).wf() == old(self).wf(),
            final(self)@ == Self::ingested(old(self)@, item@),
    {
        if self.streaming {
            if let PickerMode::Local = &self.current_mode {
                inject(&mut self.matcher, item);
                self.total_items_added = self.total_items_added.saturating_add(1);
            }
        }
    }

    /// The scan has ended: no further items are awaited.
    pub fn stream_closed(&mut self)
        ensures
            final(self).wf() == old(self).wf(),
            final(self)@ == (PickerView { streaming: false, ..old(self)@ }),
    {
        self.streaming = false;
    }

    /// Brings the selection in line with the matches of the matcher's snapshot.
    pub fn update_selection(&mut self)
        ensures
            final(self).wf() == old(self).wf(),
            final(self)@ == (PickerView {
                selection: settled(old(self)@.selection, old(self)@.matches.len() as usize),
                ..old(self)@
            }),
    {
        let count = matched_count(&self.matcher) as usize;
        self.selection = settle(self.selection, count);
    }

    /// The snapshot of the view speaks of its items: every match is one of the items,
    /// and no more items were taken up than there are.
    pub open spec fn snapshot_fits(view: PickerView) -> bool {
        snapshot_within(view.matches, view.taken_up, view.items)
    }

    /// One turn of the loop: the matcher works for a bounded time, then the selection
    /// is brought in line with the matches that its snapshot then holds. How far the
    /// matcher has come is its own matter; the matches are out of the items.
    pub fn on_tick(&mut self)
        ensures
            final(self).wf() == old(self).wf(),
            Self::snapshot_fits(final(self)@),
            final(self)@ == (PickerView {
                matches: final(self)@.matches,
                taken_up: final(self)@.taken_up,
                selection: settled(old(self)@.selection, final(self)@.matches.len() as usize),
                ..old(self)@
            }),
    {
        let _ = tick(&mut self.matcher, TICK_TIMEOUT_MS);
        self.update_selection();
    }

    /// Moves the selection as the key for "up" asks, among the matches of the matcher's
    /// snapshot: see `move_up_spec`.
    pub fn move_up(&mut self)
        ensures
            final(self).wf() == old(self).wf(),
            final(self)@ == (PickerView {
                selection: move_up_spec(
                    old(self)@.selection,
                    old(self)@.matches.len() as usize,
                    old(self)@.input_position,
                ),
                ..old(self)@
            }),
    {
        let _ = match self.input_position {
            InputPosition::Bottom => self.do_move_up(),
            InputPosition::Top => self.do_move_down(),
        };
    }

    /// Moves the selection as the key for "down" asks, among the matches of the matcher's
    /// snapshot: see `move_down_spec`.
    pub fn move_down(&mut self)
        ensures
            final(self).wf() == old(self).wf(),
            final(self)@ == (PickerView {
                selection: move_down_spec(
                    old(self)@.selection,
                    old(self)@.matches.len() as usize,
                    old(self)@.input_position,
                ),
                ..old(self)@
            }),
    {
        let _ = match self.input_position {
            InputPosition::Bottom => self.do_move_down(),
            InputPosition::Top => self.do_move_up(),
        };
    }

    /// Moves the selection one match up, and says how many matches there are.
    fn do_move_up(&mut self) -> (count: usize)
        ensures
            final(self).wf() == old(self).wf(),
            count == old(self).matches().len(),
            final(self).matches() == old(self).matches(),
            final(self)@ == (PickerView {
                selection: step_up(old(self)@.selection, count),
                ..old(self)@
            }),
    {
        let count = matched_count(&self.matcher) as usize;
        self.selection = do_move_up(self.selection, count);
        count
    }

    /// Moves the selection one match down, and says how many matches there are.
    fn do_move_down(&mut self) -> (count: usize)
        ensures
            final(self).wf() == old(self).wf(),
            count == old(self).matches().len(),
            final(self)@ == (PickerView {
                selection: step_down(old(self)@.selection, count),
                ..old(self)@
            }),
    {
        let count = matched_count(&self.matcher) as usize;
        self.selection = do_move_down(self.selection, count);
        count
    }

    /// Moves the selection by a page as the key for "page up" asks, among the matches of
    /// the matcher's snapshot.
    pub fn page_up(&mut self)
        ensures
            final(self).wf() == old(self).wf(),
            final(self)@ == (PickerView {
                selection: page_up_key_spec(
                    old(self)@.selection,
                    old(self)@.matches.len() as usize,
                    old(self)@.page_size,
                    old(self)@.input_position,
                ),
                ..old(self)@
            }),
    {
        let count = matched_count(&self.matcher) as usize;
        self.selection = match self.input_position {
            InputPosition::Bottom => do_page_up(self.selection, count, self.page_size),
            InputPosition::Top => do_page_down(self.selection, count, self.page_size),
        };
    }

    /// Moves the selection by a page as the key for "page down" asks, among the matches
    /// of the matcher's snapshot.
    pub fn page_down(&mut self)
        ensures
            final(self).wf() == old(self).wf(),
            final(self)@ == (PickerView {
                selection: page_down_key_spec(
                    old(self)@.selection,
                    old(self)@.matches.len() as usize,
                    old(self)@.page_size,
                    old(self)@.input_position,
                ),
                ..old(self)@
            }),
    {
        let count = matched_count(&self.matcher) as usize;
        self.selection = match self.input_position {
            InputPosition::Bottom => do_page_down(self.selection, count, self.page_size),
            InputPosition::Top => do_page_up(self.selection, count, self.page_size),
        };
    }

    /// The view with the filter line set to `filter` and its cursor to `cursor`. Where
    /// that changes the filter, the matcher's pattern is what the new filter is parsed
    /// into.
    pub open spec fn retyped(view: PickerView, filter: Seq<char>, cursor: nat) -> PickerView {
        if filter == view.filter {
            PickerView { cursor, ..view }
        } else {
            PickerView { filter, cursor, pattern: parsed_pattern(filter), ..view }
        }
    }

    /// `after` is `wanted` once the matcher has worked on a change of the filter since
    /// `before`. Where the filter did not change the matcher was not asked to work, and
    /// `after` is `wanted`. Where it did, the matcher has a new snapshot: how far it has
    /// come is its own matter, its matches are out of the items, and all else is as in
    /// `wanted`.
    pub open spec fn rematched(before: PickerView, wanted: PickerView, after: PickerView) -> bool {
        if wanted.filter == before.filter {
            after == wanted
        } else {
            &&& after == (PickerView {
                matches: after.matches,
                taken_up: after.taken_up,
                ..wanted
            })
            &&& Self::snapshot_fits(after)
        }
    }

    /// Hands the filter to the matcher and lets it work on it: the pattern of the matcher
    /// is then what the filter is parsed into, and the matcher has a new snapshot, with
    /// matches out of the items. Nothing else changes.
    fn update_matcher_pattern(&mut self)
        ensures
            final(self).wf() == old(self).wf(),
            final(self).pattern() == parsed_pattern(old(self)@.filter),
            Self::snapshot_fits(final(self)@),
            final(self)@ == (PickerView {
                pattern: parsed_pattern(old(self)@.filter),
                matches: final(self)@.matches,
                taken_up: final(self)@.taken_up,
                ..old(self)@
            }),
    {
        let pattern = self.input.as_string();
        set_pattern(&mut self.matcher, pattern.as_str());
        let _ = tick(&mut self.matcher, TICK_TIMEOUT_MS);
        let mut round: u8 = 1;
        while round < 10
            invariant
                round <= 10,
                self.wf() == old(self).wf(),
                Self::snapshot_fits(self@),
                self@ == (PickerView {
                    pattern: parsed_pattern(old(self)@.filter),
                    matches: self@.matches,
                    taken_up: self@.taken_up,
                    ..old(self)@
                }),
            decreases 10 - round,
        {
            let _ = tick(&mut self.matcher, TICK_TIMEOUT_MS);
            round += 1;
        }
    }

    /// Lets the matcher work on the filter where an edit has changed it.
    fn after_edit(&mut self, changed: bool, Ghost(before): Ghost<PickerView>)
        requires
            changed == (old(self)@.filter != before.filter),
            old(self)@ == (PickerView {
                filter: old(self)@.filter,
                cursor: old(self)@.cursor,
                ..before
            }),
        ensures
            final(self).wf() == old(self).wf(),
            Self::rematched(
                before,
                Self::retyped(before, old(self)@.filter, old(self)@.cursor),
                final(self)@,
            ),
    {
        if changed {
            self.update_matcher_pattern();
        }
    }

    /// Types `c` into the filter at the cursor; a filter that is full stays as it is.
    /// The matcher then works on the new filter.
    pub fn update_filter(&mut self, c: char)
        requires
            old(self).wf(),
        ensures
            final(self).wf(),
            Self::rematched(
                old(self)@,
                if old(self)@.filter.len() < crate::picker::input::MAX_INPUT {
                    Self::retyped(
                        old(self)@,
                        old(self)@.filter.insert(old(self)@.cursor as int, c),
                        old(self)@.cursor + 1,
                    )
                } else {
                    old(self)@
                },
                final(self)@,
            ),
    {
        let ghost before = self@;
        let changed = self.input.insert(c);
        self.after_edit(changed, Ghost(before));
    }

    /// Removes the character before the cursor from the filter, where there is one. The
    /// matcher then works on the new filter.
    pub fn remove_filter(&mut self)
        requires
            old(self).wf(),
        ensures
            final(self).wf(),
            Self::rematched(
                old(self)@,
                if old(self)@.cursor > 0 {
                    Self::retyped(
                        old(self)@,
                        old(self)@.filter.remove(old(self)@.cursor - 1),
                        (old(self)@.cursor - 1) as nat,
                    )
                } else {
                    old(self)@
                },
                final(self)@,
            ),
    {
        let ghost before = self@;
        let changed = self.input.backspace();
        self.after_edit(changed, Ghost(before));
    }

    /// Removes the character at the cursor from the filter, where there is one. The
    /// matcher then works on the new filter.
    pub fn delete(&mut self)
        requires
            old(self).wf(),
        ensures
            final(self).wf(),
            Self::rematched(
                old(self)@,
                if old(self)@.cursor < old(self)@.filter.len() {
                    Self::retyped(
                        old(self)@,
                        old(self)@.filter.remove(old(self)@.cursor as int),
                        old(self)@.cursor,
                    )
                } else {
                    old(self)@
                },
                final(self)@,
            ),
    {
        let ghost before = self@;
        let changed = self.input.delete();
        self.after_edit(changed, Ghost(before));
    }

    /// Removes the word before the cursor from the filter. The matcher then works on the
    /// new filter.
    pub fn delete_word(&mut self)
        requires
            old(self).wf(),
        ensures
            final(self).wf(),
            Self::rematched(
                old(self)@,
                Self::retyped(
                    old(self)@,
                    old(self)@.filter.take(
                        crate::picker::input::word_start(old(self)@.filter, old(self)@.cursor as int),
                    ) + old(self)@.filter.skip(old(self)@.cursor as int),
                    crate::picker::input::word_start(
                        old(self)@.filter,
                        old(self)@.cursor as int,
                    ) as nat,
                ),
                final(self)@,
            ),
    {
        let ghost before = self@;
        let changed = self.input.delete_word();
        self.after_edit(changed, Ghost(before));
    }

    /// Removes what stands behind the cursor, where `forward` is set, or what stands
    /// before it. The matcher then works on the new filter.
    pub fn delete_to_line(&mut self, forward: bool)
        requires
            old(self).wf(),
        ensures
            final(self).wf(),
            Self::rematched(
                old(self)@,
                if forward {
                    Self::retyped(
                        old(self)@,
                        old(self)@.filter.take(old(self)@.cursor as int),
                        old(self)@.cursor,
                    )
                } else {
                    Self::retyped(old(self)@, old(self)@.filter.skip(old(self)@.cursor as int), 0)
                },
                final(self)@,
            ),
    {
        let ghost before = self@;
        let changed = self.input.delete_to_line(forward);
        self.after_edit(changed, Ghost(before));
    }

    pub fn move_cursor_left(&mut self)
        requires
            old(self).wf(),
        ensures
            final(self).wf(),
            final(self)@ == (PickerView {
                cursor: if old(self)@.cursor > 0 {
                    (old(self)@.cursor - 1) as nat
                } else {
                    0
                },
                ..old(self)@
            }),
    {
        self.input.move_cursor_left();
    }

    pub fn move_cursor_right(&mut self)
        requires
            old(self).wf(),
        ensures
            final(self).wf(),
            final(self)@ == (PickerView {
                cursor: if old(self)@.cursor < old(self)@.filter.len() {
                    old(self)@.cursor + 1
                } else {
                    old(self)@.cursor
                },
                ..old(self)@
            }),
    {
        self.input.move_cursor_right();
    }

    pub fn move_to_start(&mut self)
        requires
            old(self).wf(),
        ensures
            final(self).wf(),
            final(self)@ == (PickerView { cursor: 0, ..old(self)@ }),
    {
        self.input.move_to_start();
    }

    pub fn move_to_end(&mut self)
        requires
            old(self).wf(),
        ensures
            final(self).wf(),
            final(self)@ == (PickerView { cursor: old(self)@.filter.len(), ..old(self)@ }),
    {
        self.input.move_to_end();
    }

    /// Shows `error` in the error overlay.
    pub fn set_error(&mut self, error: String)
        ensures
            final(self).wf() == old(self).wf(),
            final(self)@ == (PickerView {
                error_message: Some(error),
                ui_state: UIState::Error(error),
                background_op: BackgroundOp::Idle,
                ..old(self)@
            }),
    {
        self.error_message = Some(error.clone());
        self.ui_state = UIState::Error(error);
        self.background_op = BackgroundOp::Idle;
    }

    pub fn set_status(&mut self, message: String)
        ensures
            final(self).wf() == old(self).wf(),
            final(self)@ == (PickerView { status_message: Some(message), ..old(self)@ }),
    {
        self.status_message = Some(message);
    }

    pub fn clear_status(&mut self)
        ensures
            final(self).wf() == old(self).wf(),
            final(self)@ == (PickerView { status_message: None, ..old(self)@ }),
    {
        self.status_message = None;
    }
}

/// The key opens the mode list: it is the tab key while that is the configured key, or
/// the key map says so.
pub open spec fn is_switch_key(key: KeyPress, switch_mode_key: Seq<char>) -> bool {
    (key.key == Key::Tab && switch_mode_key == "tab"@) || key.action == Some(
        PickerAction::SwitchMode,
    )
}

/// The key reloads the current mode: it is the fifth function key while that is the
/// configured key, or the key map says so.
pub open spec fn is_refresh_key(key: KeyPress, refresh_key: Seq<char>) -> bool {
    (key.key == Key::F(5) && (refresh_key == "F5"@ || refresh_key == "f5"@)) || key.action
        == Some(PickerAction::Refresh)
}

/// The key moves the selection.
pub open spec fn is_move_key(key: KeyPress) -> bool {
    key.action == Some(PickerAction::MoveUp) || key.action == Some(PickerAction::MoveDown)
        || key.action == Some(PickerAction::PageUp) || key.action == Some(PickerAction::PageDown)
}

/// The view that a key asks for which edits the filter line or moves its cursor; any
/// other key asks for the view as it is. Where the filter changes, the matcher's pattern
/// follows it.
pub open spec fn edited(view: PickerView, key: KeyPress) -> PickerView {
    let at = view.cursor as int;
    match key.action {
        Some(PickerAction::Backspace) => if view.cursor > 0 {
            Picker::retyped(view, view.filter.remove(at - 1), (at - 1) as nat)
        } else {
            view
        },
        Some(PickerAction::Delete) => if view.cursor < view.filter.len() {
            Picker::retyped(view, view.filter.remove(at), view.cursor)
        } else {
            view
        },
        Some(PickerAction::DeleteWord) => Picker::retyped(
            view,
            view.filter.take(crate::picker::input::word_start(view.filter, at)) + view.filter.skip(
                at,
            ),
            crate::picker::input::word_start(view.filter, at) as nat,
        ),
        Some(PickerAction::DeleteToLineStart) => Picker::retyped(view, view.filter.skip(at), 0),
        Some(PickerAction::DeleteToLineEnd) => Picker::retyped(
            view,
            view.filter.take(at),
            view.cursor,
        ),
        Some(PickerAction::CursorLeft) => PickerView {
            cursor: if view.cursor > 0 {
                (view.cursor - 1) as nat
            } else {
                0
            },
            ..view
        },
        Some(PickerAction::CursorRight) => PickerView {
            cursor: if view.cursor < view.filter.len() {
                view.cursor + 1
            } else {
                view.cursor
            },
            ..view
        },
        Some(PickerAction::MoveToLineStart) => PickerView { cursor: 0, ..view },
        Some(PickerAction::MoveToLineEnd) => PickerView { cursor: view.filter.len(), ..view },
        None => match key.key {
            Key::Char(c) => if view.filter.len() < crate::picker::input::MAX_INPUT {
                Picker::retyped(view, view.filter.insert(at, c), view.cursor + 1)
            } else {
                view
            },
            _ => view,
        },
        _ => view,
    }
}

/// The view once the mode list was asked for: the list opens where there is more than
/// one mode, with the first mode selected and an empty filter.
pub open spec fn mode_list_opened(view: PickerView) -> PickerView {
    if view.available_modes.len() <= 1 {
        view
    } else {
        PickerView {
            ui_state: UIState::ModeSelection,
            mode_selection: 0,
            mode_filter: Seq::empty(),
            mode_cursor: 0,
            ..view
        }
    }
}

impl Picker {
    /// The picker waits for the items of `mode`: the loading overlay is up, and the
    /// stream of the local scan, which belongs to the list that is shown, counts no more.
    pub open spec fn loading(view: PickerView, mode: PickerMode, op: BackgroundOp, text: String) -> PickerView {
        PickerView {
            ui_state: UIState::Loading(text),
            background_op: op,
            pending_mode: Some(mode),
            streaming: false,
            ..view
        }
    }

    /// Opens the mode list, where there is more than one mode.
    pub fn enter_mode_selection(&mut self)
        requires
            old(self).wf(),
        ensures
            final(self).wf(),
            final(self)@ == mode_list_opened(old(self)@),
    {
        if self.available_modes.len() <= 1 {
            return ;
        }
        self.ui_state = UIState::ModeSelection;
        self.mode_selection = 0;
        self.mode_filter = InputLine::new();
    }

    fn begin_loading(&mut self, mode: PickerMode, op: BackgroundOp, force_refresh: bool) -> (effect: PickerEffect)
        ensures
            final(self).wf() == old(self).wf(),
            effect == (PickerEffect::Load { mode, force_refresh }),
            exists|text: String|
                text@ == loading_text(mode) && final(self)@ == #[trigger] Self::loading(
                    old(self)@,
                    mode,
                    op,
                    text,
                ),
    {
        let text = match &mode {
            PickerMode::Local => "Loading local repositories...".to_string(),
            PickerMode::GitHub(profile_name) => {
                let mut text = "Loading GitHub repositories for '".to_string();
                text.push_str(profile_name.as_str());
                text.push_str("'...");
                text
            },
        };
        self.ui_state = UIState::Loading(text);
        self.background_op = op;
        self.pending_mode = Some(mode.duplicate());
        self.streaming = false;
        assert(self@ == Self::loading(old(self)@, mode, op, text));
        PickerEffect::Load { mode, force_refresh }
    }

    /// The view once `mode` was chosen: the state store, where there is one, remembers it
    /// as the active mode; its records and its directories stay as they are.
    pub open spec fn remembering(view: PickerView, mode: PickerMode) -> PickerView {
        PickerView {
            store: match view.store {
                Some(store) => Some(StoreView { active_profile: Some(mode_tag(mode)), ..store }),
                None => None,
            },
            ..view
        }
    }

    /// Remembers `mode` as the active one in the state store, where there is one.
    fn remember(&mut self, mode: &PickerMode)
        ensures
            final(self).wf() == old(self).wf(),
            final(self)@ == Self::remembering(old(self)@, *mode),
    {
        let tag = mode.tag();
        match self.state_manager.take() {
            Some(manager) => {
                let mut manager = manager;
                manager.set_active_profile(Some(tag));
                self.state_manager = Some(manager);
            },
            None => {},
        }
    }

    /// Asks for a switch to `new_mode`: the choice is remembered in the state store, and
    /// the items of the mode are to be loaded. The list that is shown stays as it is
    /// until they are there.
    pub fn switch_to_mode(&mut self, new_mode: PickerMode) -> (effect: PickerEffect)
        requires
            old(self).wf(),
        ensures
            final(self).wf(),
            effect == (PickerEffect::Load { mode: new_mode, force_refresh: false }),
            exists|text: String|
                text@ == loading_text(new_mode) && final(self)@ == #[trigger] Self::loading(
                    Self::remembering(old(self)@, new_mode),
                    new_mode,
                    loading_op(new_mode),
                    text,
                ),
    {
        self.remember(&new_mode);
        let op = match &new_mode {
            PickerMode::Local => BackgroundOp::LoadingLocal,
            PickerMode::GitHub(name) => BackgroundOp::LoadingGitHub(name.clone()),
        };
        self.begin_loading(new_mode, op, false)
    }

    /// Asks for the items of the local mode to be loaded.
    pub fn start_loading_local_mode(&mut self, force_refresh: bool) -> (effect: PickerEffect)
        requires
            old(self).wf(),
        ensures
            final(self).wf(),
            effect == (PickerEffect::Load { mode: PickerMode::Local, force_refresh }),
            exists|text: String|
                text@ == loading_text(PickerMode::Local) && final(self)@ == #[trigger] Self::loading(
                    old(self)@,
                    PickerMode::Local,
                    BackgroundOp::LoadingLocal,
                    text,
                ),
    {
        self.begin_loading(PickerMode::Local, BackgroundOp::LoadingLocal, force_refresh)
    }

    /// Asks for the items of the current mode to be loaded, where that is a remote mode;
    /// in the local mode nothing happens.
    pub fn start_loading_github_mode(&mut self, force_refresh: bool) -> (effect: PickerEffect)
        requires
            old(self).wf(),
        ensures
            final(self).wf(),
            match old(self)@.current_mode {
                PickerMode::Local => effect == PickerEffect::Continue && final(self)@ == old(
                    self,
                )@,
                PickerMode::GitHub(name) => {
                    &&& effect == (PickerEffect::Load {
                        mode: old(self)@.current_mode,
                        force_refresh,
                    })
                    &&& exists|text: String|
                        text@ == loading_text(old(self)@.current_mode) && final(self)@
                            == #[trigger] Self::loading(
                            old(self)@,
                            old(self)@.current_mode,
                            BackgroundOp::LoadingGitHub(name),
                            text,
                        )
                },
            },
    {
        match &self.current_mode {
            PickerMode::Local => PickerEffect::Continue,
            PickerMode::GitHub(name) => {
                let op = BackgroundOp::LoadingGitHub(name.clone());
                let mode = self.current_mode.duplicate();
                self.begin_loading(mode, op, force_refresh)
            },
        }
    }

    /// Asks for the items of the current mode to be loaded anew, past any cache.
    pub fn start_refresh_current_mode(&mut self) -> (effect: PickerEffect)
        requires
            old(self).wf(),
        ensures
            final(self).wf(),
            effect == (PickerEffect::Load { mode: old(self)@.current_mode, force_refresh: true }),
            exists|text: String|
                text@ == loading_text(old(self)@.current_mode) && final(self)@
                    == #[trigger] Self::loading(
                    old(self)@,
                    old(self)@.current_mode,
                    BackgroundOp::RefreshingCurrent,
                    text,
                ),
    {
        let mode = self.current_mode.duplicate();
        self.begin_loading(mode, BackgroundOp::RefreshingCurrent, true)
    }

    /// What the picker does first: a remote mode that was remembered as active has its
    /// items loaded; the local mode shows what the scan delivers.
    pub fn start(&mut self) -> (effect: PickerEffect)
        requires
            old(self).wf(),
        ensures
            final(self).wf(),
            match old(self)@.current_mode {
                PickerMode::Local => effect == PickerEffect::Continue && final(self)@ == old(
                    self,
                )@,
                PickerMode::GitHub(name) => {
                    &&& effect == (PickerEffect::Load {
                        mode: old(self)@.current_mode,
                        force_refresh: false,
                    })
                    &&& exists|text: String|
                        text@ == loading_text(old(self)@.current_mode) && final(self)@
                            == #[trigger] Self::loading(
                            old(self)@,
                            old(self)@.current_mode,
                            BackgroundOp::LoadingGitHub(name),
                            text,
                        )
                },
            },
    {
        self.start_loading_github_mode(false)
    }

    /// The view once the items of the pending mode have arrived: the mode is entered, the
    /// list is replaced by the new items and nothing of the old list stays; the matcher
    /// is a new one, without matches yet, that matches against the filter; the overlay
    /// goes down.
    pub open spec fn entered(view: PickerView, mode: PickerMode, items: Seq<Seq<char>>) -> PickerView {
        PickerView {
            items,
            matches: Seq::empty(),
            taken_up: 0,
            pattern: parsed_pattern(view.filter),
            total_items_added: counted(0, items.len()),
            selection: None,
            current_mode: mode,
            pending_mode: None,
            ui_state: UIState::Normal,
            background_op: BackgroundOp::Idle,
            ..view
        }
    }

    /// The view once loading the pending mode has failed: the error overlay is up; the
    /// mode and the list stay as they were.
    pub open spec fn load_failed(view: PickerView, text: String) -> PickerView {
        PickerView {
            pending_mode: None,
            error_message: Some(text),
            ui_state: UIState::Error(text),
            background_op: BackgroundOp::Idle,
            ..view
        }
    }

    /// Takes the outcome of loading the pending mode: its items, or the reason why there
    /// are none. With no mode pending nothing happens.
    pub fn finish_loading(&mut self, outcome: Result<Vec<String>, String>)
        requires
            old(self).wf(),
        ensures
            final(self).wf(),
            match old(self)@.pending_mode {
                None => final(self)@ == old(self)@,
                Some(mode) => match outcome {
                    Ok(items) => final(self)@ == Self::entered(old(self)@, mode, texts(items@)),
                    Err(reason) => exists|text: String|
                        text@ == load_error_text(mode, reason@) && final(self)@
                            == #[trigger] Self::load_failed(old(self)@, text),
                },
            },
    {
        let mode = match self.pending_mode.take() {
            Some(mode) => mode,
            None => {
                return ;
            },
        };
        match outcome {
            Ok(items) => {
                self.matcher = new_matcher();
                self.total_items_added = 0;
                self.fill(&items);
                let pattern = self.input.as_string();
                set_pattern(&mut self.matcher, pattern.as_str());
                self.selection = None;
                self.current_mode = mode;
                self.ui_state = UIState::Normal;
                self.background_op = BackgroundOp::Idle;
                assert(Seq::<Seq<char>>::empty() + texts(items@) =~= texts(items@));
            },
            Err(reason) => {
                let mut text = match &mode {
                    PickerMode::Local => "Failed to load local repositories: ".to_string(),
                    PickerMode::GitHub(_) => "Failed to load GitHub repositories: ".to_string(),
                };
                text.push_str(reason.as_str());
                self.set_error(text);
                assert(self@ == Self::load_failed(old(self)@, text));
            },
        }
    }

    /// Answers the confirmation of `selected`. In the local mode the loop ends with the
    /// item as its answer. In a remote mode the repository that the line names is to be
    /// cloned first. Either way the mode is remembered as the active one.
    pub fn handle_selection(&mut self, selected: &str) -> (effect: PickerEffect)
        ensures
            final(self).wf() == old(self).wf(),
            final(self)@ == Self::remembering(old(self)@, old(self)@.current_mode),
            match old(self)@.current_mode {
                PickerMode::Local => {
                    &&& effect matches PickerEffect::Exit(Some(answer))
                    &&& answer@ == selected@
                },
                PickerMode::GitHub(name) => {
                    &&& effect matches PickerEffect::Clone { profile, repo_name }
                    &&& profile@ == name@
                    &&& repo_name@ == name_of_line_spec(selected@)
                },
            },
    {
        let mode = self.current_mode.duplicate();
        self.remember(&mode);
        match mode {
            PickerMode::Local => PickerEffect::Exit(Some(selected.to_string())),
            PickerMode::GitHub(profile) => PickerEffect::Clone {
                profile,
                repo_name: name_of_line(selected),
            },
        }
    }

    /// Takes the outcome of cloning the selected repository: with the clone at a local
    /// path the loop ends, its answer being the path marked as a remote selection; a
    /// failure goes up in the error overlay.
    pub fn finish_clone(&mut self, outcome: Result<String, String>) -> (effect: PickerEffect)
        ensures
            final(self).wf() == old(self).wf(),
            match outcome {
                Ok(path) => {
                    &&& final(self)@ == old(self)@
                    &&& effect matches PickerEffect::Exit(Some(answer))
                    &&& answer@ == remote_selection_spec(path@)
                },
                Err(reason) => {
                    &&& effect == PickerEffect::Continue
                    &&& exists|text: String|
                        text@ == clone_error_text(reason@) && final(self)@
                            == #[trigger] Self::load_failed(old(self)@, text)
                },
            },
    {
        match outcome {
            Ok(path) => PickerEffect::Exit(Some(remote_selection(path.as_str()))),
            Err(reason) => {
                let mut text = "Error cloning repository: ".to_string();
                text.push_str(reason.as_str());
                self.pending_mode = None;
                self.set_error(text);
                assert(self@ == Self::load_failed(old(self)@, text));
                PickerEffect::Continue
            },
        }
    }
}

/// The view after a key that moves the selection among the matches of the matcher's
/// snapshot.
pub open spec fn moved(view: PickerView, key: KeyPress) -> PickerView {
    let count = view.matches.len() as usize;
    PickerView {
        selection: match key.action {
            Some(PickerAction::MoveUp) => move_up_spec(view.selection, count, view.input_position),
            Some(PickerAction::MoveDown) => move_down_spec(
                view.selection,
                count,
                view.input_position,
            ),
            Some(PickerAction::PageUp) => page_up_key_spec(
                view.selection,
                count,
                view.page_size,
                view.input_position,
            ),
            Some(PickerAction::PageDown) => page_down_key_spec(
                view.selection,
                count,
                view.page_size,
                view.input_position,
            ),
            _ => view.selection,
        },
        ..view
    }
}

/// What a confirmation leads to. Where the selection stands on a match, the mode is
/// remembered as active; in the local mode the loop ends with that match as its answer;
/// in a remote mode the repository that the match names is to be cloned. Where the
/// selection stands on no match, nothing happens.
pub open spec fn confirmed(before: PickerView, after: PickerView, effect: PickerEffect) -> bool {
    match before.selection {
        Some(index) if index < before.matches.len() => {
            &&& after == Picker::remembering(before, before.current_mode)
            &&& match before.current_mode {
                PickerMode::Local => {
                    &&& effect matches PickerEffect::Exit(Some(answer))
                    &&& answer@ == before.matches[index as int]
                },
                PickerMode::GitHub(name) => {
                    &&& effect matches PickerEffect::Clone { profile, repo_name }
                    &&& profile@ == name@
                    &&& repo_name@ == name_of_line_spec(before.matches[index as int])
                },
            }
        },
        _ => effect == PickerEffect::Continue && after == before,
    }
}

/// What a key does while the list is shown: see the cases.
pub open spec fn normal_key_handled(
    before: PickerView,
    key: KeyPress,
    after: PickerView,
    effect: PickerEffect,
) -> bool {
    if is_switch_key(key, before.switch_mode_key) {
        // the mode list opens
        after == mode_list_opened(before) && effect == PickerEffect::Continue
    } else if is_refresh_key(key, before.refresh_key) {
        // the current mode is loaded anew
        &&& effect == (PickerEffect::Load { mode: before.current_mode, force_refresh: true })
        &&& exists|text: String|
            text@ == loading_text(before.current_mode) && after == #[trigger] Picker::loading(
                before,
                before.current_mode,
                BackgroundOp::RefreshingCurrent,
                text,
            )
    } else if key.action == Some(PickerAction::Cancel) {
        // the loop ends without a selection
        after == before && effect == (PickerEffect::Exit(None))
    } else if key.action == Some(PickerAction::Confirm) {
        confirmed(before, after, effect)
    } else if is_move_key(key) {
        effect == PickerEffect::Continue && after == moved(before, key)
    } else {
        // the filter line is edited, and the matcher works on the new filter
        Picker::rematched(before, edited(before, key), after) && effect == PickerEffect::Continue
    }
}

/// The mode list's selection one line up, the list having `shown` lines: from the first
/// line it goes to the last.
pub open spec fn mode_line_up(selection: usize, shown: nat) -> usize {
    if shown == 0 {
        selection
    } else if selection == 0 {
        (shown - 1) as usize
    } else {
        (selection - 1) as usize
    }
}

/// The mode list's selection one line down: from the last line it goes to the first.
pub open spec fn mode_line_down(selection: usize, shown: nat) -> usize {
    if shown == 0 {
        selection
    } else if selection + 1 >= shown {
        0
    } else {
        (selection + 1) as usize
    }
}

/// The mode that the mode list's selection stands on, where it stands on one.
pub open spec fn chosen_mode(view: PickerView) -> Option<PickerMode> {
    let shown = filtered_positions(view.available_modes, view.mode_filter);
    if view.mode_selection < shown.len() && 0 <= shown[view.mode_selection as int]
        < view.available_modes.len() {
        Some(view.available_modes[shown[view.mode_selection as int]])
    } else {
        None
    }
}

/// The selection stands on a mode other than the current one.
pub open spec fn chooses_other_mode(view: PickerView) -> bool {
    chosen_mode(view) matches Some(mode) && mode_profile(mode) != mode_profile(view.current_mode)
}

/// What a key does while the mode list is shown: see the cases.
pub open spec fn mode_key_handled(
    before: PickerView,
    key: KeyPress,
    after: PickerView,
    effect: PickerEffect,
) -> bool {
    let shown = filtered_positions(before.available_modes, before.mode_filter).len();
    match key.key {
        Key::Esc => after == (PickerView { ui_state: UIState::Normal, ..before }) && effect
            == PickerEffect::Continue,
        Key::Enter => if chooses_other_mode(before) {
            // a switch to the chosen mode is asked for
            let mode = chosen_mode(before)->0;
            &&& effect == (PickerEffect::Load { mode, force_refresh: false })
            &&& exists|text: String|
                text@ == loading_text(mode) && after == #[trigger] Picker::loading(
                    Picker::remembering(before, mode),
                    mode,
                    loading_op(mode),
                    text,
                )
        } else {
            after == (PickerView { ui_state: UIState::Normal, ..before }) && effect
                == PickerEffect::Continue
        },
        Key::Up => after == (PickerView {
            mode_selection: mode_line_up(before.mode_selection, shown),
            ..before
        }) && effect == PickerEffect::Continue,
        Key::Down => after == (PickerView {
            mode_selection: mode_line_down(before.mode_selection, shown),
            ..before
        }) && effect == PickerEffect::Continue,
        Key::Char(c) => effect == PickerEffect::Continue && after == if before.mode_filter.len()
            < crate::picker::input::MAX_INPUT {
            PickerView {
                mode_filter: before.mode_filter.insert(before.mode_cursor as int, c),
                mode_cursor: before.mode_cursor + 1,
                mode_selection: 0,
                ..before
            }
        } else {
            before
        },
        Key::Backspace => effect == PickerEffect::Continue && after == if before.mode_cursor > 0 {
            PickerView {
                mode_filter: before.mode_filter.remove(before.mode_cursor - 1),
                mode_cursor: (before.mode_cursor - 1) as nat,
                mode_selection: 0,
                ..before
            }
        } else {
            before
        },
        _ => after == before && effect == PickerEffect::Continue,
    }
}

/// What a key does, by the state that the picker is in.
pub open spec fn key_handled(
    before: PickerView,
    key: KeyPress,
    after: PickerView,
    effect: PickerEffect,
) -> bool {
    match before.ui_state {
        UIState::Normal => normal_key_handled(before, key, after, effect),
        UIState::ModeSelection => mode_key_handled(before, key, after, effect),
        // while loading only the key for "cancel" is heard: the load is given up
        UIState::Loading(_) => after == before && effect == if key.action == Some(
            PickerAction::Cancel,
        ) {
            PickerEffect::Exit(None)
        } else {
            PickerEffect::Continue
        },
        // any key dismisses the error
        UIState::Error(_) => after == (PickerView {
            ui_state: UIState::Normal,
            error_message: None,
            ..before
        }) && effect == PickerEffect::Continue,
    }
}

impl Picker {
    /// Handles a key while the list is shown.
    pub fn handle_normal_key_event(&mut self, key: KeyPress) -> (effect: PickerEffect)
        requires
            old(self).wf(),
        ensures
            final(self).wf(),
            normal_key_handled(
                old(self)@,
                key,
                final(self)@,
                effect,
            ),
    {
        let tab_switches = *self.switch_mode_key.as_str() == *"tab";
        let f5_refreshes = *self.refresh_key.as_str() == *"F5" || *self.refresh_key.as_str()
            == *"f5";
        let switches = match key.key {
            Key::Tab => tab_switches,
            _ => false,
        } || match key.action {
            Some(PickerAction::SwitchMode) => true,
            _ => false,
        };
        if switches {
            self.enter_mode_selection();
            return PickerEffect::Continue;
        }
        let refreshes = match key.key {
            Key::F(number) => number == 5 && f5_refreshes,
            _ => false,
        } || match key.action {
            Some(PickerAction::Refresh) => true,
            _ => false,
        };
        if refreshes {
            return self.start_refresh_current_mode();
        }
        match key.action {
            Some(PickerAction::Cancel) => PickerEffect::Exit(None),
            Some(PickerAction::Confirm) => {
                match self.get_selected() {
                    Some(selected) => self.handle_selection(selected.as_str()),
                    None => PickerEffect::Continue,
                }
            },
            Some(PickerAction::SwitchMode) => PickerEffect::Continue,
            Some(PickerAction::Refresh) => PickerEffect::Continue,
            Some(PickerAction::Backspace) => {
                self.remove_filter();
                PickerEffect::Continue
            },
            Some(PickerAction::Delete) => {
                self.delete();
                PickerEffect::Continue
            },
            Some(PickerAction::DeleteWord) => {
                self.delete_word();
                PickerEffect::Continue
            },
            Some(PickerAction::DeleteToLineStart) => {
                self.delete_to_line(false);
                PickerEffect::Continue
            },
            Some(PickerAction::DeleteToLineEnd) => {
                self.delete_to_line(true);
                PickerEffect::Continue
            },
            Some(PickerAction::MoveUp) => {
                self.move_up();
                PickerEffect::Continue
            },
            Some(PickerAction::MoveDown) => {
                self.move_down();
                PickerEffect::Continue
            },
            Some(PickerAction::PageUp) => {
                self.page_up();
                PickerEffect::Continue
            },
            Some(PickerAction::PageDown) => {
                self.page_down();
                PickerEffect::Continue
            },
            Some(PickerAction::CursorLeft) => {
                self.move_cursor_left();
                PickerEffect::Continue
            },
            Some(PickerAction::CursorRight) => {
                self.move_cursor_right();
                PickerEffect::Continue
            },
            Some(PickerAction::MoveToLineStart) => {
                self.move_to_start();
                PickerEffect::Continue
            },
            Some(PickerAction::MoveToLineEnd) => {
                self.move_to_end();
                PickerEffect::Continue
            },
            Some(PickerAction::Noop) => PickerEffect::Continue,
            None => {
                if let Key::Char(c) = key.key {
                    self.update_filter(c);
                }
                PickerEffect::Continue
            },
        }
    }

    /// Handles a key while the mode list is shown.
    pub fn handle_mode_selection_key_event(&mut self, key: KeyPress) -> (effect: PickerEffect)
        requires
            old(self).wf(),
        ensures
            final(self).wf(),
            mode_key_handled(old(self)@, key, final(self)@, effect),
    {
        let filter = self.mode_filter.as_string();
        let shown = filter_modes(&self.available_modes, filter.as_str());
        proof {
            assert(crate::session::positions(shown@).len() == shown@.len());
            if self.mode_selection < shown.len() {
                assert(crate::session::positions(shown@)[self.mode_selection as int]
                    == shown@[self.mode_selection as int]);
            }
        }
        match key.key {
            Key::Esc => {
                self.ui_state = UIState::Normal;
                PickerEffect::Continue
            },
            Key::Enter => {
                if self.mode_selection < shown.len() {
                    let chosen = self.available_modes[shown[self.mode_selection]].duplicate();
                    if !chosen.same_as(&self.current_mode) {
                        return self.switch_to_mode(chosen);
                    }
                }
                self.ui_state = UIState::Normal;
                PickerEffect::Continue
            },
            Key::Up => {
                if shown.len() > 0 {
                    self.mode_selection = if self.mode_selection == 0 {
                        shown.len() - 1
                    } else {
                        self.mode_selection - 1
                    };
                }
                PickerEffect::Continue
            },
            Key::Down => {
                if shown.len() > 0 {
                    self.mode_selection = if self.mode_selection >= shown.len() - 1 {
                        0
                    } else {
                        self.mode_selection + 1
                    };
                }
                PickerEffect::Continue
            },
            Key::Char(c) => {
                if self.mode_filter.insert(c) {
                    self.mode_selection = 0;
                }
                PickerEffect::Continue
            },
            Key::Backspace => {
                if self.mode_filter.backspace() {
                    self.mode_selection = 0;
                }
                PickerEffect::Continue
            },
            _ => PickerEffect::Continue,
        }
    }

    /// Handles a key, by the state that the picker is in.
    pub fn handle_key_event(&mut self, key: KeyPress) -> (effect: PickerEffect)
        requires
            old(self).wf(),
        ensures
            final(self).wf(),
            key_handled(
                old(self)@,
                key,
                final(self)@,
                effect,
            ),
    {
        match &self.ui_state {
            UIState::Normal => self.handle_normal_key_event(key),
            UIState::ModeSelection => self.handle_mode_selection_key_event(key),
            UIState::Loading(_) => {
                match key.action {
                    Some(PickerAction::Cancel) => PickerEffect::Exit(None),
                    _ => PickerEffect::Continue,
                }
            },
            UIState::Error(_) => {
                self.ui_state = UIState::Normal;
                self.error_message = None;
                PickerEffect::Continue
            },
        }
    }
}

/// Once a mode is entered the list holds the items that were loaded for it and nothing
/// else: no item of the mode that was left stays. The stream of the local scan was cut
/// off when the switch was asked for, so that an item of the scan that is handed over
/// while the mode is loaded, or after it was entered, is dropped.
pub proof fn lemma_mode_isolation(
    before: PickerView,
    mode: PickerMode,
    op: BackgroundOp,
    text: String,
    items: Seq<Seq<char>>,
    item: Seq<char>,
)
    ensures
        !Picker::loading(before, mode, op, text).streaming,
        Picker::loading(before, mode, op, text).items == before.items,
        Picker::ingested(Picker::loading(before, mode, op, text), item) == Picker::loading(
            before,
            mode,
            op,
            text,
        ),
        Picker::entered(Picker::loading(before, mode, op, text), mode, items).items == items,
        Picker::entered(Picker::loading(before, mode, op, text), mode, items).items.contains(item)
            ==> items.contains(item),
        Picker::ingested(
            Picker::entered(Picker::loading(before, mode, op, text), mode, items),
            item,
        ) == Picker::entered(Picker::loading(before, mode, op, text), mode, items),
{
}

/// A picker without items has no matches and has taken up no item, however far its
/// matcher has come: its title shows none of none.
pub proof fn lemma_no_items_no_matches(view: PickerView)
    requires
        view.items.len() == 0,
        Picker::snapshot_fits(view),
    ensures
        view.matches.len() == 0,
        view.taken_up == 0,
        title_spec(view.current_mode, view.matches.len() as u32, view.taken_up as u32, view.streaming)
            == title_spec(view.current_mode, 0, 0, view.streaming),
{
    if view.matches.len() > 0 {
        assert(view.items.contains(view.matches[0]));
    }
}

/// A load that fails leaves the mode and the list as they were, under the error
/// overlay; the key that dismisses the overlay brings back the list.
pub proof fn lemma_failed_load_keeps_list(before: PickerView, text: String, key: KeyPress, after: PickerView, effect: PickerEffect)
    requires
        key_handled(Picker::load_failed(before, text), key, after, effect),
    ensures
        Picker::load_failed(before, text).items == before.items,
        Picker::load_failed(before, text).current_mode == before.current_mode,
        after.ui_state == UIState::Normal,
        after.items == before.items,
        after.current_mode == before.current_mode,
        effect == PickerEffect::Continue,
{
}

/// The mode list as it is drawn.
#[derive(Debug, Clone, PartialEq, Eq)]
pub struct ModeList {
    /// A line for each mode that passes the filter, the current mode marked.
    pub lines: Vec<String>,
    /// The line that is highlighted, where there is one.
    pub highlighted: Option<usize>,
}

/// The line of the mode list for a mode: its name, marked where it is the current mode.
pub open spec fn mode_line(mode: PickerMode, current: PickerMode) -> Seq<char> {
    if mode_profile(mode) == mode_profile(current) {
        "\u{25cf} "@ + display_name_spec(mode) + " (current)"@
    } else {
        "  "@ + display_name_spec(mode)
    }
}

/// The position among `shown` of the first mode that is the current one.
pub open spec fn current_line(
    modes: Seq<PickerMode>,
    shown: Seq<int>,
    current: PickerMode,
) -> Option<int>
    decreases shown.len(),
{
    if shown.len() == 0 {
        None
    } else {
        match current_line(modes, shown.drop_last(), current) {
            Some(at) => Some(at),
            None => if 0 <= shown.last() < modes.len() && mode_profile(modes[shown.last()])
                == mode_profile(current) {
                Some(shown.len() - 1)
            } else {
                None
            },
        }
    }
}

/// The line of the mode list that is highlighted: the selection, or the last line where
/// the selection lies beyond it; but while nothing was typed and nothing was moved, the
/// line of the current mode. An empty list has no highlighted line.
pub open spec fn highlighted_line(view: PickerView) -> Option<int> {
    let shown = filtered_positions(view.available_modes, view.mode_filter);
    if shown.len() == 0 {
        None
    } else {
        let at_start = view.mode_filter.len() == 0 && view.mode_selection == 0;
        match current_line(view.available_modes, shown, view.current_mode) {
            Some(at) if at_start => Some(at),
            _ => if view.mode_selection < shown.len() {
                Some(view.mode_selection as int)
            } else {
                Some(shown.len() - 1)
            },
        }
    }
}

impl Picker {
    /// The mode list as it is to be drawn.
    pub fn mode_list(&self) -> (list: ModeList)
        ensures
            list.lines@.len() == filtered_positions(
                self@.available_modes,
                self@.mode_filter,
            ).len(),
            forall|k: int|
                0 <= k < list.lines@.len() ==> (#[trigger] list.lines@[k])@ == mode_line(
                    self@.available_modes[filtered_positions(
                        self@.available_modes,
                        self@.mode_filter,
                    )[k]],
                    self@.current_mode,
                ),
            match list.highlighted {
                Some(line) => highlighted_line(self@) == Some(line as int),
                None => highlighted_line(self@) is None,
            },
    {
        let filter = self.mode_filter.as_string();
        let shown = filter_modes(&self.available_modes, filter.as_str());
        let ghost positions = filtered_positions(self.available_modes@, filter@);
        let mut lines: Vec<String> = Vec::new();
        let mut current: Option<usize> = None;
        let mut k: usize = 0;
        proof {
            assert(crate::session::positions(shown@).len() == shown@.len());
            assert(positions.take(0) =~= Seq::<int>::empty());
        }
        while k < shown.len()
            invariant
                k <= shown.len(),
                positions == crate::session::positions(shown@),
                forall|j: int|
                    0 <= j < shown@.len() ==> #[trigger] shown@[j] < self.available_modes@.len(),
                lines@.len() == k,
                forall|j: int|
                    0 <= j < k ==> (#[trigger] lines@[j])@ == mode_line(
                        self.available_modes@[positions[j]],
                        self.current_mode,
                    ),
                match current {
                    Some(at) => current_line(
                        self.available_modes@,
                        positions.take(k as int),
                        self.current_mode,
                    ) == Some(at as int),
                    None => current_line(
                        self.available_modes@,
                        positions.take(k as int),
                        self.current_mode,
                    ) is None,
                },
            decreases shown.len() - k,
        {
            proof {
                assert(positions[k as int] == shown@[k as int]);
                assert(positions.take(k + 1).drop_last() =~= positions.take(k as int));
                assert(positions.take(k + 1).last() == positions[k as int]);
            }
            let mode = &self.available_modes[shown[k]];
            let is_current = mode.same_as(&self.current_mode);
            let mut line = if is_current {
                "\u{25cf} ".to_string()
            } else {
                "  ".to_string()
            };
            line.push_str(mode.display_name().as_str());
            if is_current {
                line.push_str(" (current)");
                if current.is_none() {
                    current = Some(k);
                }
            }
            lines.push(line);
            k += 1;
        }
        proof {
            assert(positions.take(shown.len() as int) =~= positions);
        }
        let highlighted = if shown.len() == 0 {
            None
        } else {
            let at_start = filter.as_str().is_empty() && self.mode_selection == 0;
            match current {
                Some(at) if at_start => Some(at),
                _ => if self.mode_selection < shown.len() {
                    Some(self.mode_selection)
                } else {
                    Some(shown.len() - 1)
                },
            }
        };
        ModeList { lines, highlighted }
    }
}

/// The column of the cursor in the input line that starts at column `x`, behind the
/// prompt of two characters; it stops at the last column that there can be.
pub fn cursor_column(x: u16, cursor: usize) -> (column: u16)
    ensures
        column == if x + cursor + 2 > u16::MAX {
            u16::MAX as int
        } else {
            x + cursor + 2
        },
{
    if cursor > u16::MAX as usize {
        return u16::MAX;
    }
    x.saturating_add(cursor as u16).saturating_add(2)
}

} // verus!
