//! The controller: it owns the file list, the player, the search
//! coordinator and the directory index, takes one message at a time and
//! answers with the effects that the front end is to carry out. Each effect
//! that reads or waits comes back as a message of its own.

use crate::common::{clone_path, Entry};
use crate::dir_cache::{DirCache, PairView};
use crate::file_selector::{
    listing, read_views, rows_for, rows_of, sorted_by_path, FileButton, FileButtonView, FileList,
    FileSelector,
};
use crate::menu::MainMenu;
use crate::player::{
    loaded, playable, refusal, Decoded, PlaybackError, Player, PlayerCommand, PlayerMsg,
    SessionStart,
};
use crate::search::{
    next_generation, outcome, plan_for, Aborted, SearchCoordinator, SearchPlan, SearchPlanView,
};
use vstd::prelude::*;

verus! {

/// What was selected in the file list, with what reading it gave.
#[derive(Debug)]
pub enum Selection {
    /// A directory, with the entries read from it.
    Directory { path: String, read: Vec<Option<Entry>> },
    /// A file, with what opening the device and decoding the file gave.
    File { path: String, source: Result<Decoded, PlaybackError> },
}

/// A message to the controller.
#[derive(Debug)]
pub enum Message {
    SelectedFile(Option<Selection>),
    /// Enter a directory; `read` holds the entries read from it.
    ChangeDirectory { dir: String, read: Vec<Option<Entry>> },
    /// The text of the search field has changed.
    Search(String),
    /// A walk asked for under `generation` has yielded `walked`.
    Listed { generation: u64, walked: Vec<Option<Entry>> },
    /// A search issued under `generation` has ended.
    SearchCompleted { generation: u64, result: Result<Vec<String>, Aborted> },
    /// A walk of `dir` has yielded `walked`.
    InsertDircache { dir: String, walked: Vec<Option<Entry>> },
    InvalidateDircache,
    /// The handle of the seek bar is dragged to a position, in millionths.
    Seek(u32),
    /// The handle of the seek bar is released.
    SeekCommit,
    /// The worker of `session` has reported `msg`, or its channel is closed;
    /// `is_playing` is the playing flag as read on arrival.
    PlayerMsg { session: u64, msg: Option<PlayerMsg>, is_playing: bool },
    TogglePlaying,
    StopPlayback,
    VResizeFileSelector(u16),
}

/// Something for the front end to carry out.
#[derive(Debug)]
pub enum Effect {
    /// Abort the search that is in flight.
    AbortSearch,
    /// Walk `dir` and answer with `Listed` under `generation`.
    List { generation: u64, dir: String },
    /// Walk `dir` and answer with `InsertDircache`.
    Walk { dir: String },
    /// Carry out `plan` for `query` in `dir` and answer with
    /// `SearchCompleted`.
    Search { plan: SearchPlan, query: String, dir: String },
    /// Write these pairs to the store.
    Persist(Vec<(String, Vec<String>)>),
    /// Close the channel of the session before and spawn a worker on the
    /// file at `path`.
    StartSession { start: SessionStart, path: String },
    /// Send a command to the worker of the active session.
    Send(PlayerCommand),
    /// Wait for the next status of the active session.
    AwaitStatus,
    /// Tell the user of a failure.
    Report(PlaybackError),
}

/// An effect with its strings as character sequences.
pub enum EffectView {
    AbortSearch,
    List { generation: u64, dir: Seq<char> },
    Walk { dir: Seq<char> },
    Search { plan: SearchPlanView, query: Seq<char>, dir: Seq<char> },
    Persist(Seq<PairView>),
    StartSession { start: SessionStart, path: Seq<char> },
    Send(PlayerCommand),
    AwaitStatus,
    Report(PlaybackError),
}

/// The session that the first of these effects starts.
pub open spec fn session_started(effects: Seq<EffectView>) -> SessionStart {
    match effects[0] {
        EffectView::StartSession { start, .. } => start,
        _ => arbitrary(),
    }
}

impl View for Effect {
    type V = EffectView;

    open spec fn view(&self) -> EffectView {
        match *self {
            Effect::AbortSearch => EffectView::AbortSearch,
            Effect::List { generation, dir } => EffectView::List { generation, dir: dir@ },
            Effect::Walk { dir } => EffectView::Walk { dir: dir@ },
            Effect::Search { plan, query, dir } => EffectView::Search {
                plan: plan@,
                query: query@,
                dir: dir@,
            },
            Effect::Persist(pairs) => EffectView::Persist(pairs.deep_view()),
            Effect::StartSession { start, path } => EffectView::StartSession { start, path: path@ },
            Effect::Send(command) => EffectView::Send(command),
            Effect::AwaitStatus => EffectView::AwaitStatus,
            Effect::Report(error) => EffectView::Report(error),
        }
    }
}

impl DeepView for Effect {
    type V = EffectView;

    open spec fn deep_view(&self) -> EffectView {
        self@
    }
}

/// The controller's state.
#[derive(Debug)]
pub struct App {
    pub file_selector: FileSelector,
    pub menu: MainMenu,
    pub file_selector_divider_vpos: Option<u16>,
    pub player: Player,
    pub search: SearchCoordinator,
    pub dir_cache: DirCache,
}

/// The index of the first row with the given path.
pub open spec fn first_row_with(rows: Seq<FileButtonView>, path: Seq<char>, at: int) -> bool {
    &&& 0 <= at < rows.len()
    &&& rows[at].file_path == path
    &&& forall|k: int| 0 <= k < at ==> rows[k].file_path != path
}

/// The index of the first row with the given path, if there is one.
pub fn position_of(rows: &Vec<FileButton>, path: &String) -> (at: Option<usize>)
    ensures
        match at {
            Some(i) => first_row_with(rows.deep_view(), path@, i as int),
            None => forall|k: int| 0 <= k < rows@.len() ==> rows.deep_view()[k].file_path != path@,
        },
{
    let mut i: usize = 0;
    while i < rows.len()
        invariant
            i <= rows@.len(),
            forall|k: int| 0 <= k < i ==> rows.deep_view()[k].file_path != path@,
        decreases rows@.len() - i,
    {
        if rows[i].file_path == *path {
            assert(rows.deep_view()[i as int].file_path == path@);
            return Some(i);
        }
        i = i + 1;
    }
    None
}

/// The command that toggling sends: hold while playing, play otherwise.
pub open spec fn toggle_command(is_playing: bool) -> PlayerCommand {
    if is_playing {
        PlayerCommand::Pause
    } else {
        PlayerCommand::Play
    }
}

/// The effects of asking the active session for `command`: the command is
/// sent, or the lack of a session is reported.
pub open spec fn command_effects(player: Player, command: PlayerCommand) -> Seq<EffectView> {
    if player.session is Some {
        seq![EffectView::Send(command)]
    } else {
        seq![EffectView::Report(PlaybackError::NoActiveSession)]
    }
}

/// Everything but the file list is as before.
pub open spec fn only_selector_changed(before: App, after: App) -> bool {
    &&& after.menu == before.menu
    &&& after.file_selector_divider_vpos == before.file_selector_divider_vpos
    &&& after.player == before.player
    &&& after.search == before.search
    &&& after.dir_cache == before.dir_cache
}

/// Everything but the player is as before.
pub open spec fn only_player_changed(before: App, after: App) -> bool {
    &&& after.menu == before.menu
    &&& after.file_selector_divider_vpos == before.file_selector_divider_vpos
    &&& after.file_selector == before.file_selector
    &&& after.search == before.search
    &&& after.dir_cache == before.dir_cache
}

/// Everything but the directory index is as before.
pub open spec fn only_cache_changed(before: App, after: App) -> bool {
    &&& after.menu == before.menu
    &&& after.file_selector_divider_vpos == before.file_selector_divider_vpos
    &&& after.file_selector == before.file_selector
    &&& after.player == before.player
    &&& after.search == before.search
}

/// The selector shows `dir` as read: rows in path order, nothing selected,
/// the search field empty.
pub open spec fn shows_directory(
    selector: FileSelector,
    dir: Seq<char>,
    read: Seq<Option<Entry>>,
) -> bool {
    &&& selector.current_dir@ == dir
    &&& sorted_by_path(selector.file_list.deep_view())
    &&& selector.file_list.deep_view().to_multiset() == rows_of(
        listing(read_views(read)),
        dir,
    ).to_multiset()
    &&& selector.selected_file is None
    &&& selector.search_value@ == Seq::<char>::empty()
}

/// Entering a directory shows it, and asks for a walk where the index does
/// not hold it yet.
pub open spec fn entered(
    before: App,
    dir: Seq<char>,
    read: Seq<Option<Entry>>,
    after: App,
    effects: Seq<EffectView>,
) -> bool {
    &&& only_selector_changed(before, after)
    &&& shows_directory(after.file_selector, dir, read)
    &&& effects == if before.dir_cache@.contains_key(dir) {
        Seq::<EffectView>::empty()
    } else {
        seq![EffectView::Walk { dir }]
    }
}

/// A change of the search text supersedes the search in flight. A short
/// query shows the whole listing: from the index at once, or by asking for
/// a fresh listing. A longer one asks for a search; the rows stay until
/// its result arrives.
pub open spec fn searched(before: App, query: Seq<char>, after: App, effects: Seq<EffectView>) -> bool {
    let dir = before.file_selector.current_dir@;
    let cached = if before.dir_cache@.contains_key(dir) {
        Some(before.dir_cache@[dir])
    } else {
        None
    };
    let generation = next_generation(before.search.generation);
    let plan = plan_for(query, cached, generation);
    &&& after.menu == before.menu
    &&& after.file_selector_divider_vpos == before.file_selector_divider_vpos
    &&& after.player == before.player
    &&& after.dir_cache == before.dir_cache
    &&& after.search.generation == generation
    &&& after.file_selector.current_dir@ == dir
    &&& after.file_selector.search_value@ == query
    &&& after.file_selector.selected_file == before.file_selector.selected_file
    &&& match plan {
        SearchPlanView::ShowAll { cached: Some(children) } => {
            &&& after.file_selector.file_list.deep_view() == rows_of(children, dir)
            &&& effects == seq![EffectView::AbortSearch]
        },
        SearchPlanView::ShowAll { cached: None } => {
            &&& after.file_selector.file_list == before.file_selector.file_list
            &&& effects == seq![EffectView::AbortSearch, EffectView::List { generation, dir }]
        },
        _ => {
            &&& after.file_selector.file_list == before.file_selector.file_list
            &&& effects == seq![EffectView::AbortSearch, EffectView::Search { plan, query, dir }]
        },
    }
}

/// What a fresh walk yields is shown, as far as the filter accepts it and
/// in the order of the walk, if the walk was asked for by the latest
/// search; it is dropped otherwise.
pub open spec fn listed(
    before: App,
    generation: u64,
    walked: Seq<Option<Entry>>,
    after: App,
    effects: Seq<EffectView>,
) -> bool {
    let dir = before.file_selector.current_dir@;
    &&& effects == Seq::<EffectView>::empty()
    &&& if generation == before.search.generation {
        &&& only_selector_changed(before, after)
        &&& after.file_selector.current_dir == before.file_selector.current_dir
        &&& after.file_selector.search_value == before.file_selector.search_value
        &&& after.file_selector.selected_file == before.file_selector.selected_file
        &&& after.file_selector.file_list.deep_view() == rows_of(
            listing(read_views(walked)),
            dir,
        )
    } else {
        after == before
    }
}

/// What a search result counts for: aborted if the search was aborted or
/// has been superseded, and what was found otherwise.
pub open spec fn judged(
    live: u64,
    generation: u64,
    result: Result<Seq<Seq<char>>, Aborted>,
) -> Result<Seq<Seq<char>>, Aborted> {
    match result {
        Ok(found) => outcome(live, generation, found),
        Err(_) => Err(Aborted),
    }
}

/// The result of the latest search replaces the rows, in the order found;
/// any other result changes nothing.
pub open spec fn search_completed(
    before: App,
    generation: u64,
    result: Result<Seq<Seq<char>>, Aborted>,
    after: App,
    effects: Seq<EffectView>,
) -> bool {
    &&& effects == Seq::<EffectView>::empty()
    &&& match judged(before.search.generation, generation, result) {
        Ok(found) => {
            &&& only_selector_changed(before, after)
            &&& after.file_selector.current_dir == before.file_selector.current_dir
            &&& after.file_selector.search_value == before.file_selector.search_value
            &&& after.file_selector.selected_file == before.file_selector.selected_file
            &&& after.file_selector.file_list.deep_view() == rows_of(
                found,
                before.file_selector.current_dir@,
            )
        },
        Err(_) => after == before,
    }
}

/// Of what a walk of a directory yields, the entries that the filter
/// accepts enter the index as its children, in the order of the walk, and
/// the index is written out.
pub open spec fn cache_inserted(
    before: App,
    dir: Seq<char>,
    walked: Seq<Option<Entry>>,
    after: App,
    effects: Seq<EffectView>,
) -> bool {
    &&& only_cache_changed(before, after)
    &&& after.dir_cache@ == before.dir_cache@.insert(dir, listing(read_views(walked)))
    &&& effects == seq![EffectView::Persist(after.dir_cache.pairs())]
}

/// The index is emptied, and the empty index is written out.
pub open spec fn cache_invalidated(before: App, after: App, effects: Seq<EffectView>) -> bool {
    &&& only_cache_changed(before, after)
    &&& after.dir_cache@ == Map::<Seq<char>, Seq<Seq<char>>>::empty()
    &&& effects == seq![EffectView::Persist(Seq::<PairView>::empty())]
}

/// A status of the active session: an acknowledgement brings the flag up
/// to date, the end of the track asks the session to hold, and after either
/// the next status is awaited. A closed channel, or a status of a session
/// that has been superseded, changes nothing.
pub open spec fn status_taken(
    before: App,
    session: u64,
    msg: Option<PlayerMsg>,
    is_playing: bool,
    after: App,
    effects: Seq<EffectView>,
) -> bool {
    let current = before.player.active() is Some && before.player.active()->Some_0.0 == session;
    if !current {
        after == before && effects == Seq::<EffectView>::empty()
    } else {
        match msg {
            None => after == before && effects == Seq::<EffectView>::empty(),
            Some(PlayerMsg::PlayingStored) => {
                &&& only_player_changed(before, after)
                &&& after.player.controls.is_playing == is_playing
                &&& after.player.controls.seekbar == before.player.controls.seekbar
                &&& after.player.waveform == before.player.waveform
                &&& after.player.session == before.player.session
                &&& after.player.next_session == before.player.next_session
                &&& effects == seq![EffectView::AwaitStatus]
            },
            Some(PlayerMsg::SinkEmpty) => {
                &&& after == before
                &&& effects == seq![
                    EffectView::Send(PlayerCommand::Pause),
                    EffectView::AwaitStatus,
                ]
            },
        }
    }
}

/// Selecting nothing drops the waveform. Selecting a directory shows it.
/// Selecting a file loads it: on success its row is selected and the new
/// session is started, played and awaited; on failure the failure is
/// reported and nothing changes.
pub open spec fn selected(
    before: App,
    selection: Option<Selection>,
    after: App,
    effects: Seq<EffectView>,
) -> bool {
    match selection {
        None => {
            &&& only_player_changed(before, after)
            &&& after.player.waveform is None
            &&& after.player.controls == before.player.controls
            &&& after.player.session == before.player.session
            &&& after.player.next_session == before.player.next_session
            &&& effects == Seq::<EffectView>::empty()
        },
        Some(Selection::Directory { path, read }) => {
            &&& only_selector_changed(before, after)
            &&& shows_directory(after.file_selector, path@, read@)
            &&& effects == Seq::<EffectView>::empty()
        },
        Some(Selection::File { path, source }) => {
            let started = if playable(source) {
                Ok::<SessionStart, PlaybackError>(session_started(effects))
            } else {
                Err::<SessionStart, PlaybackError>(refusal(source))
            };
            &&& after.menu == before.menu
            &&& after.file_selector_divider_vpos == before.file_selector_divider_vpos
            &&& after.search == before.search
            &&& after.dir_cache == before.dir_cache
            &&& loaded(before.player, path@, source, after.player, started)
            &&& if playable(source) {
                &&& after.file_selector.current_dir == before.file_selector.current_dir
                &&& after.file_selector.file_list == before.file_selector.file_list
                &&& after.file_selector.search_value == before.file_selector.search_value
                &&& match after.file_selector.selected_file {
                    Some(i) => first_row_with(
                        before.file_selector.file_list.deep_view(),
                        path@,
                        i as int,
                    ),
                    None => forall|k: int|
                        0 <= k < before.file_selector.file_list@.len()
                            ==> before.file_selector.file_list.deep_view()[k].file_path != path@,
                }
                &&& effects == seq![
                    EffectView::StartSession { start: started->Ok_0, path: path@ },
                    EffectView::Send(PlayerCommand::Play),
                    EffectView::AwaitStatus,
                ]
            } else {
                &&& after.file_selector == before.file_selector
                &&& effects == seq![EffectView::Report(refusal(source))]
            }
        },
    }
}

/// A short query over an indexed directory shows exactly the children
/// that the index holds for it, whatever was shown or searched before.
pub proof fn lemma_short_query_shows_listing(
    before: App,
    query: Seq<char>,
    after: App,
    effects: Seq<EffectView>,
)
    requires
        searched(before, query, after, effects),
        crate::search::is_short(query),
        before.dir_cache@.contains_key(before.file_selector.current_dir@),
    ensures
        after.file_selector.file_list.deep_view() == rows_of(
            before.dir_cache@[before.file_selector.current_dir@],
            before.file_selector.current_dir@,
        ),
        effects == seq![EffectView::AbortSearch],
{
}

/// A short query over a directory that is not indexed asks for a fresh
/// walk under the new generation; once its yield arrives, the rows are
/// exactly the entries of it that the filter accepts.
pub proof fn lemma_short_query_lists_afresh(
    before: App,
    query: Seq<char>,
    asked: App,
    effects: Seq<EffectView>,
    walked: Seq<Option<Entry>>,
    after: App,
    none: Seq<EffectView>,
)
    requires
        searched(before, query, asked, effects),
        crate::search::is_short(query),
        !before.dir_cache@.contains_key(before.file_selector.current_dir@),
        listed(asked, asked.search.generation, walked, after, none),
    ensures
        effects == seq![
            EffectView::AbortSearch,
            EffectView::List {
                generation: asked.search.generation,
                dir: before.file_selector.current_dir@,
            },
        ],
        after.file_selector.file_list.deep_view() == rows_of(
            listing(read_views(walked)),
            before.file_selector.current_dir@,
        ),
{
}

/// Of two searches issued one after the other, the result of the first is
/// dropped whenever it arrives, and the result of the second, if it was
/// not aborted, is what the list then shows.
pub proof fn lemma_only_latest_search_applies(
    start: App,
    first_query: Seq<char>,
    first: App,
    first_effects: Seq<EffectView>,
    second_query: Seq<char>,
    second: App,
    second_effects: Seq<EffectView>,
    found: Seq<Seq<char>>,
    after: App,
    effects: Seq<EffectView>,
    arrived: u64,
)
    requires
        searched(start, first_query, first, first_effects),
        searched(first, second_query, second, second_effects),
        arrived == first.search.generation || arrived == second.search.generation,
        search_completed(second, arrived, Ok(found), after, effects),
    ensures
        arrived == first.search.generation ==> after == second,
        arrived == second.search.generation ==> after.file_selector.file_list.deep_view()
            == rows_of(found, second.file_selector.current_dir@),
{
}

/// The state and the effects that a message leads to.
pub open spec fn step(before: App, message: Message, after: App, effects: Seq<EffectView>) -> bool {
    match message {
        Message::SelectedFile(selection) => selected(before, selection, after, effects),
        Message::ChangeDirectory { dir, read } => entered(before, dir@, read@, after, effects),
        Message::Search(query) => searched(before, query@, after, effects),
        Message::Listed { generation, walked } => listed(
            before,
            generation,
            walked@,
            after,
            effects,
        ),
        Message::SearchCompleted { generation, result } => search_completed(
            before,
            generation,
            match result {
                Ok(found) => Ok(found.deep_view()),
                Err(e) => Err(e),
            },
            after,
            effects,
        ),
        Message::InsertDircache { dir, walked } => cache_inserted(
            before,
            dir@,
            walked@,
            after,
            effects,
        ),
        Message::InvalidateDircache => cache_invalidated(before, after, effects),
        Message::Seek(p) => {
            &&& only_player_changed(before, after)
            &&& after.player.waveform == before.player.waveform
            &&& after.player.session == before.player.session
            &&& after.player.next_session == before.player.next_session
            &&& after.player.controls.is_playing == before.player.controls.is_playing
            &&& after.player.controls.seekbar == match before.player.controls.seekbar {
                Some(bar) => Some(
                    crate::player::Seekbar { total: bar.total, remaining: bar.remaining, seeking: p },
                ),
                None => None,
            }
            &&& effects == Seq::<EffectView>::empty()
        },
        Message::SeekCommit => {
            &&& after == before
            &&& effects == match before.player.controls.seekbar {
                Some(bar) => command_effects(before.player, PlayerCommand::Seek(bar.seeking)),
                None => Seq::<EffectView>::empty(),
            }
        },
        Message::PlayerMsg { session, msg, is_playing } => status_taken(
            before,
            session,
            msg,
            is_playing,
            after,
            effects,
        ),
        Message::TogglePlaying => {
            &&& after == before
            &&& effects == command_effects(
                before.player,
                toggle_command(before.player.controls.is_playing),
            )
        },
        Message::StopPlayback => {
            &&& after == before
            &&& effects == command_effects(before.player, PlayerCommand::Stop)
        },
        Message::VResizeFileSelector(position) => {
            &&& after.file_selector_divider_vpos == Some(position)
            &&& after.menu == before.menu
            &&& after.file_selector == before.file_selector
            &&& after.player == before.player
            &&& after.search == before.search
            &&& after.dir_cache == before.dir_cache
            &&& effects == Seq::<EffectView>::empty()
        },
    }
}

fn no_effects() -> (effects: Vec<Effect>)
    ensures
        effects.deep_view() == Seq::<EffectView>::empty(),
{
    let effects: Vec<Effect> = Vec::new();
    assert(effects.deep_view() =~= Seq::<EffectView>::empty());
    effects
}

fn one_effect(effect: Effect) -> (effects: Vec<Effect>)
    ensures
        effects.deep_view() == seq![effect@],
{
    let mut effects: Vec<Effect> = Vec::new();
    effects.push(effect);
    assert(effects.deep_view() =~= seq![effect@]);
    effects
}

fn two_effects(first: Effect, second: Effect) -> (effects: Vec<Effect>)
    ensures
        effects.deep_view() == seq![first@, second@],
{
    let mut effects: Vec<Effect> = Vec::new();
    effects.push(first);
    effects.push(second);
    assert(effects.deep_view() =~= seq![first@, second@]);
    effects
}

fn send_or_report(sent: Result<PlayerCommand, PlaybackError>) -> (effects: Vec<Effect>)
    ensures
        effects.deep_view() == match sent {
            Ok(command) => seq![EffectView::Send(command)],
            Err(error) => seq![EffectView::Report(error)],
        },
{
    match sent {
        Ok(command) => one_effect(Effect::Send(command)),
        Err(error) => one_effect(Effect::Report(error)),
    }
}

impl App {
    /// The controller at start: the directory `current_dir` as read, no
    /// session, no search issued, and the index that the store yielded.
    pub fn new(
        current_dir: &str,
        read: &Vec<Option<Entry>>,
        stored: Option<Vec<(String, Vec<String>)>>,
    ) -> (app: App)
        ensures
            shows_directory(app.file_selector, current_dir@, read@),
            app.file_selector_divider_vpos == Some(300u16),
            app.player.active() is None,
            app.player.waveform is None,
            !app.player.controls.is_playing,
            app.search.generation == 0,
            app.dir_cache@ == crate::dir_cache::restored(
                match stored {
                    Some(pairs) => Some(pairs.deep_view()),
                    None => None,
                },
            ),
    {
        App {
            file_selector: FileSelector::new(current_dir, read),
            menu: MainMenu::new(),
            file_selector_divider_vpos: Some(300),
            player: Player::new(),
            search: SearchCoordinator::new(),
            dir_cache: DirCache::get_dir_cache(stored),
        }
    }

    /// The title of the window.
    pub fn title(&self) -> (title: String)
        ensures
            title@ == "Tundra Sample Browser"@,
    {
        "Tundra Sample Browser".to_owned()
    }

    fn select(&mut self, selection: Option<Selection>) -> (effects: Vec<Effect>)
        ensures
            selected(*old(self), selection, *final(self), effects.deep_view()),
    {
        match selection {
            None => {
                self.player.waveform = None;
                no_effects()
            },
            Some(Selection::Directory { path, read }) => {
                self.file_selector = FileSelector::new(path.as_str(), &read);
                no_effects()
            },
            Some(Selection::File { path, source }) => {
                let at = position_of(&self.file_selector.file_list, &path);
                let shown = clone_path(&path);
                match self.player.play_file(path, source) {
                    Ok(start) => {
                        self.file_selector.selected_file = at;
                        let mut effects: Vec<Effect> = Vec::new();
                        effects.push(Effect::StartSession { start, path: shown });
                        effects.push(Effect::Send(start.first));
                        effects.push(Effect::AwaitStatus);
                        assert(effects.deep_view() =~= seq![
                            EffectView::StartSession { start, path: path@ },
                            EffectView::Send(PlayerCommand::Play),
                            EffectView::AwaitStatus,
                        ]);
                        effects
                    },
                    Err(error) => one_effect(Effect::Report(error)),
                }
            },
        }
    }

    fn enter(&mut self, dir: String, read: Vec<Option<Entry>>) -> (effects: Vec<Effect>)
        ensures
            entered(*old(self), dir@, read@, *final(self), effects.deep_view()),
    {
        self.file_selector = FileSelector::new(dir.as_str(), &read);
        if self.dir_cache.contains_key(&dir) {
            no_effects()
        } else {
            one_effect(Effect::Walk { dir })
        }
    }

    fn start_search(&mut self, query: String) -> (effects: Vec<Effect>)
        ensures
            searched(*old(self), query@, *final(self), effects.deep_view()),
    {
        let plan = self.search.search(
            query.as_str(),
            self.dir_cache.get(&self.file_selector.current_dir),
        );
        let dir = clone_path(&self.file_selector.current_dir);
        let generation = self.search.generation;
        let effects = match plan {
            SearchPlan::ShowAll { cached: Some(children) } => {
                self.file_selector.file_list = rows_for(&children, dir.as_str());
                one_effect(Effect::AbortSearch)
            },
            SearchPlan::ShowAll { cached: None } => two_effects(
                Effect::AbortSearch,
                Effect::List { generation, dir },
            ),
            plan => {
                let asked = clone_path(&query);
                two_effects(Effect::AbortSearch, Effect::Search { plan, query: asked, dir })
            },
        };
        self.file_selector.search_value = query;
        effects
    }

    fn show_listing(&mut self, generation: u64, walked: Vec<Option<Entry>>) -> (effects: Vec<Effect>)
        ensures
            listed(*old(self), generation, walked@, *final(self), effects.deep_view()),
    {
        if generation == self.search.generation {
            let shown = FileList::list_dir(&walked);
            self.file_selector.file_list = rows_for(
                &shown.files,
                self.file_selector.current_dir.as_str(),
            );
        }
        no_effects()
    }

    fn finish_search(&mut self, generation: u64, result: Result<Vec<String>, Aborted>) -> (effects:
        Vec<Effect>)
        ensures
            search_completed(
                *old(self),
                generation,
                match result {
                    Ok(found) => Ok(found.deep_view()),
                    Err(e) => Err(e),
                },
                *final(self),
                effects.deep_view(),
            ),
    {
        let judged = match result {
            Ok(found) => self.search.complete(generation, found),
            Err(e) => Err(e),
        };
        if let Ok(found) = judged {
            self.file_selector.file_list = rows_for(
                &found,
                self.file_selector.current_dir.as_str(),
            );
        }
        no_effects()
    }

    fn take_status(&mut self, session: u64, msg: Option<PlayerMsg>, is_playing: bool) -> (effects:
        Vec<Effect>)
        ensures
            status_taken(*old(self), session, msg, is_playing, *final(self), effects.deep_view()),
    {
        if !self.player.is_current(session) {
            return no_effects();
        }
        match msg {
            None => no_effects(),
            Some(PlayerMsg::PlayingStored) => {
                self.player.controls.is_playing = is_playing;
                one_effect(Effect::AwaitStatus)
            },
            Some(PlayerMsg::SinkEmpty) => two_effects(
                Effect::Send(PlayerCommand::Pause),
                Effect::AwaitStatus,
            ),
        }
    }

    /// Takes one message: changes the state and returns what the front end
    /// is to carry out, in order.
    pub fn update(&mut self, message: Message) -> (effects: Vec<Effect>)
        ensures
            step(*old(self), message, *final(self), effects.deep_view()),
    {
        match message {
            Message::SelectedFile(selection) => self.select(selection),
            Message::ChangeDirectory { dir, read } => self.enter(dir, read),
            Message::Search(query) => self.start_search(query),
            Message::Listed { generation, walked } => self.show_listing(generation, walked),
            Message::SearchCompleted { generation, result } => self.finish_search(generation, result),
            Message::InsertDircache { dir, walked } => {
                let shown = FileList::list_dir(&walked);
                self.dir_cache.insert(dir, shown.files);
                one_effect(Effect::Persist(self.dir_cache.persist()))
            },
            Message::InvalidateDircache => {
                self.dir_cache.invalidate();
                let written = self.dir_cache.persist();
                assert(written.deep_view() =~= Seq::<PairView>::empty());
                one_effect(Effect::Persist(written))
            },
            Message::Seek(p) => {
                self.player.controls.seeking(p);
                no_effects()
            },
            Message::SeekCommit => match self.player.controls.seekbar {
                Some(bar) => send_or_report(self.player.seek(bar.seeking)),
                None => no_effects(),
            },
            Message::PlayerMsg { session, msg, is_playing } => self.take_status(
                session,
                msg,
                is_playing,
            ),
            Message::TogglePlaying => {
                if self.player.controls.is_playing {
                    send_or_report(self.player.pause())
                } else {
                    send_or_report(self.player.resume())
                }
            },
            Message::StopPlayback => send_or_report(self.player.stop()),
            Message::VResizeFileSelector(position) => {
                self.file_selector_divider_vpos = Some(position);
                no_effects()
            },
        }
    }
}

} // verus!
