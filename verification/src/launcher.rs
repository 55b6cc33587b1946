use vstd::prelude::*;

use crate::shows::{Show, ShowView};

verus! {

/// How long an error stays on screen before it is cleared, in seconds.
pub const ERROR_DISPLAY_SECS: u64 = 1;

/// The state of the launcher window: the shows on display, whether an
/// operation is under way, the error to show, and the title of the tile
/// under the mouse.
pub struct AppState<P, T> {
    pub shows: Vec<Show<P, T>>,
    pub loading: bool,
    pub error: Option<String>,
    /// Which title to display in the bottom of the view.
    pub display_title: Option<String>,
}

/// What the launcher state stands for in contracts.
pub struct AppView<P, T> {
    pub shows: Seq<ShowView<P, T>>,
    pub loading: bool,
    pub error: Option<Seq<char>>,
    pub display_title: Option<Seq<char>>,
}

/// The text of an optional string.
pub open spec fn text_of(s: Option<String>) -> Option<Seq<char>> {
    match s {
        Some(s) => Some(s@),
        None => None,
    }
}

/// The views of a list of shows.
pub open spec fn show_views<P, T>(shows: Seq<Show<P, T>>) -> Seq<ShowView<P, T>> {
    shows.map_values(|s: Show<P, T>| s@)
}

impl<P, T> View for AppState<P, T> {
    type V = AppView<P, T>;

    open spec fn view(&self) -> AppView<P, T> {
        AppView {
            shows: show_views(self.shows@),
            loading: self.loading,
            error: text_of(self.error),
            display_title: text_of(self.display_title),
        }
    }
}

/// What happens to the launcher: results of its own work and the user's
/// actions on the tiles.
pub enum Event<P, T> {
    /// The shows were found.
    ShowsLoaded(Vec<Show<P, T>>),
    /// The thumbnail of the show at a position was loaded (or not).
    ThumbnailLoaded(usize, Option<T>),
    /// The mouse entered the tile of the show at a position.
    EnteredTile(usize),
    /// The mouse left the tile of the show at a position.
    ExitedTile(usize),
    /// The user asked to play a random video of the show at a position.
    PlayRandomVideo(usize),
    /// The user asked to open the folder of the show at a position.
    BrowseShow(usize),
    /// An operation finished, with an error message where it failed.
    Complete(Result<(), String>),
    /// The time to show the error is over.
    ClearError,
}

impl<P: Clone, T: Clone> Clone for Event<P, T> {
    fn clone(&self) -> Self {
        match self {
            Event::ShowsLoaded(shows) => Event::ShowsLoaded(shows.clone()),
            Event::ThumbnailLoaded(i, t) => Event::ThumbnailLoaded(*i, t.clone()),
            Event::EnteredTile(i) => Event::EnteredTile(*i),
            Event::ExitedTile(i) => Event::ExitedTile(*i),
            Event::PlayRandomVideo(i) => Event::PlayRandomVideo(*i),
            Event::BrowseShow(i) => Event::BrowseShow(*i),
            Event::Complete(r) => Event::Complete(
                match r {
                    Ok(()) => Ok(()),
                    Err(m) => Err(m.clone()),
                },
            ),
            Event::ClearError => Event::ClearError,
        }
    }
}

/// What an event stands for in contracts.
pub enum EventView<P, T> {
    ShowsLoaded(Seq<ShowView<P, T>>),
    ThumbnailLoaded(usize, Option<T>),
    EnteredTile(usize),
    ExitedTile(usize),
    PlayRandomVideo(usize),
    BrowseShow(usize),
    Complete(Result<(), Seq<char>>),
    ClearError,
}

impl<P, T> View for Event<P, T> {
    type V = EventView<P, T>;

    open spec fn view(&self) -> EventView<P, T> {
        match self {
            Event::ShowsLoaded(shows) => EventView::ShowsLoaded(show_views(shows@)),
            Event::ThumbnailLoaded(i, t) => EventView::ThumbnailLoaded(*i, *t),
            Event::EnteredTile(i) => EventView::EnteredTile(*i),
            Event::ExitedTile(i) => EventView::ExitedTile(*i),
            Event::PlayRandomVideo(i) => EventView::PlayRandomVideo(*i),
            Event::BrowseShow(i) => EventView::BrowseShow(*i),
            Event::Complete(r) => EventView::Complete(
                match r {
                    Ok(()) => Ok(()),
                    Err(m) => Err(m@),
                },
            ),
            Event::ClearError => EventView::ClearError,
        }
    }
}

/// The work that an event asks of the program around the launcher state.
#[derive(Clone, Copy, Debug, PartialEq, Eq, Structural)]
pub enum Effect {
    /// Nothing to do.
    Nothing,
    /// Load the thumbnails of the first so many shows, each reported back by
    /// a `ThumbnailLoaded` event.
    LoadThumbnails(usize),
    /// Play a random video of the show at a position, reported back by a
    /// `Complete` event.
    PlayRandomVideo(usize),
    /// Open the folder of the show at a position, reported back by a
    /// `Complete` event.
    BrowseShow(usize),
    /// Send `ClearError` after so many seconds.
    ClearErrorAfterSecs(u64),
}

/// The state of a launcher that has just started: looking for shows.
pub open spec fn initial_view<P, T>() -> AppView<P, T> {
    AppView { shows: Seq::empty(), loading: true, error: None, display_title: None }
}

/// The state after an event.
pub open spec fn next_state<P, T>(s: AppView<P, T>, e: EventView<P, T>) -> AppView<P, T> {
    match e {
        EventView::ShowsLoaded(shows) => AppView { shows, loading: false, ..s },
        EventView::ThumbnailLoaded(i, t) => if i < s.shows.len() {
            AppView {
                shows: s.shows.update(i as int, ShowView { thumbnail: t, ..s.shows[i as int] }),
                ..s
            }
        } else {
            s
        },
        EventView::EnteredTile(i) => AppView {
            display_title: if i < s.shows.len() {
                Some(s.shows[i as int].name)
            } else {
                None
            },
            ..s
        },
        EventView::ExitedTile(i) => if i < s.shows.len() && s.display_title == Some(
            s.shows[i as int].name,
        ) {
            AppView { display_title: None, ..s }
        } else {
            s
        },
        EventView::PlayRandomVideo(_) => AppView { loading: true, ..s },
        EventView::BrowseShow(_) => AppView { loading: true, ..s },
        EventView::Complete(r) => AppView {
            loading: false,
            error: match r {
                Ok(()) => s.error,
                Err(m) => Some(m),
            },
            ..s
        },
        EventView::ClearError => AppView { error: None, ..s },
    }
}

/// The work that an event asks for.
pub open spec fn next_effect<P, T>(s: AppView<P, T>, e: EventView<P, T>) -> Effect {
    match e {
        EventView::ShowsLoaded(shows) => Effect::LoadThumbnails(shows.len() as usize),
        EventView::PlayRandomVideo(i) => Effect::PlayRandomVideo(i),
        EventView::BrowseShow(i) => Effect::BrowseShow(i),
        EventView::Complete(Err(_)) => Effect::ClearErrorAfterSecs(ERROR_DISPLAY_SECS),
        _ => Effect::Nothing,
    }
}

/// The state after a sequence of events, in order.
pub open spec fn run<P, T>(s: AppView<P, T>, events: Seq<EventView<P, T>>) -> AppView<P, T>
    decreases events.len(),
{
    if events.len() == 0 {
        s
    } else {
        run(next_state(s, events[0]), events.drop_first())
    }
}

impl<P, T> AppState<P, T> {
    /// A launcher that has just started: no shows yet, looking for them.
    pub fn new() -> (app: Self)
        ensures
            app@ == initial_view::<P, T>(),
    {
        let app = AppState { shows: Vec::new(), loading: true, error: None, display_title: None };
        assert(app@.shows =~= Seq::<ShowView<P, T>>::empty());
        app
    }
}

/// Applies an event to the launcher state and says what work it asks for.
/// The position of a show to play or browse must be that of a show.
pub fn update<P, T>(app: &mut AppState<P, T>, event: Event<P, T>) -> (effect: Effect)
    requires
        event matches Event::PlayRandomVideo(i) ==> i < old(app).shows.len(),
        event matches Event::BrowseShow(i) ==> i < old(app).shows.len(),
    ensures
        final(app)@ == next_state(old(app)@, event@),
        effect == next_effect(old(app)@, event@),
        (event is ThumbnailLoaded || event is EnteredTile || event is ExitedTile
            || event is ClearError) ==> final(app).loading == old(app).loading,
        (event is PlayRandomVideo || event is BrowseShow) ==> final(app).loading,
        (event is ShowsLoaded || event is Complete) ==> !final(app).loading,
{
    proof {
        lemma_event_footprint(old(app)@, event@);
    }
    match event {
        Event::ShowsLoaded(shows) => {
            let n = shows.len();
            app.shows = shows;
            app.loading = false;
            Effect::LoadThumbnails(n)
        },
        Event::ThumbnailLoaded(idx, thumbnail) => {
            if idx < app.shows.len() {
                let ghost before = app.shows@;
                app.shows[idx].thumbnail = thumbnail;
                assert(show_views(app.shows@) =~= show_views(before).update(
                    idx as int,
                    ShowView { thumbnail, ..show_views(before)[idx as int] },
                ));
            }
            Effect::Nothing
        },
        Event::EnteredTile(idx) => {
            if idx < app.shows.len() {
                app.display_title = Some(app.shows[idx].name.clone());
            } else {
                app.display_title = None;
            }
            Effect::Nothing
        },
        Event::ExitedTile(idx) => {
            let same = if idx < app.shows.len() {
                match &app.display_title {
                    Some(title) => app.shows[idx].name == *title,
                    None => false,
                }
            } else {
                false
            };
            if same {
                app.display_title = None;
            }
            Effect::Nothing
        },
        Event::PlayRandomVideo(idx) => {
            app.loading = true;
            Effect::PlayRandomVideo(idx)
        },
        Event::BrowseShow(idx) => {
            app.loading = true;
            Effect::BrowseShow(idx)
        },
        Event::Complete(res) => {
            app.loading = false;
            match res {
                Ok(()) => Effect::Nothing,
                Err(error) => {
                    app.error = Some(error);
                    Effect::ClearErrorAfterSecs(ERROR_DISPLAY_SECS)
                },
            }
        },
        Event::ClearError => {
            app.error = None;
            Effect::Nothing
        },
    }
}

/// The two buttons on a show's tile.
#[derive(Clone, Copy, Debug, PartialEq, Eq, Structural)]
pub enum TileButton {
    /// Play a random video of the show.
    Play,
    /// Open the show's folder.
    Browse,
}

/// The event that pressing a tile button sends, if the button can be
/// pressed: the buttons are disabled while an operation is under way.
pub open spec fn button_event<P, T>(s: AppView<P, T>, idx: usize, button: TileButton) -> Option<
    EventView<P, T>,
> {
    if s.loading {
        None
    } else {
        match button {
            TileButton::Play => Some(EventView::PlayRandomVideo(idx)),
            TileButton::Browse => Some(EventView::BrowseShow(idx)),
        }
    }
}

/// The event that pressing a button on the tile of the show at `idx`
/// sends, or `None` where the button is disabled.
pub fn tile_button_event<P, T>(app: &AppState<P, T>, idx: usize, button: TileButton) -> (event:
    Option<Event<P, T>>)
    ensures
        match event {
            Some(e) => button_event(app@, idx, button) == Some(e@),
            None => button_event(app@, idx, button) is None,
        },
{
    if app.loading {
        None
    } else {
        match button {
            TileButton::Play => Some(Event::PlayRandomVideo(idx)),
            TileButton::Browse => Some(Event::BrowseShow(idx)),
        }
    }
}

/// A button press never starts an operation while another one is under way,
/// and the operation it starts makes the launcher busy.
pub proof fn lemma_one_operation_at_a_time<P, T>(
    s: AppView<P, T>,
    idx: usize,
    button: TileButton,
)
    ensures
        s.loading ==> button_event(s, idx, button) is None,
        button_event(s, idx, button) matches Some(e) ==> next_state(s, e).loading,
{
}

/// Entering a tile shows its show's name; leaving the same tile right
/// after clears that title again.
pub proof fn lemma_exit_after_enter_clears_title<P, T>(s: AppView<P, T>, i: usize)
    requires
        i < s.shows.len(),
    ensures
        next_state(s, EventView::EnteredTile(i)).display_title == Some(s.shows[i as int].name),
        next_state(next_state(s, EventView::EnteredTile(i)), EventView::ExitedTile(i)).display_title
            is None,
{
}

/// When the mouse enters another tile before the exit from the previous one
/// arrives, that late exit leaves the new tile's title on display (where
/// the two shows have different names).
pub proof fn lemma_late_exit_keeps_new_title<P, T>(s: AppView<P, T>, i: usize, j: usize)
    requires
        i < s.shows.len(),
        j < s.shows.len(),
        s.shows[i as int].name != s.shows[j as int].name,
    ensures
        next_state(
            next_state(next_state(s, EventView::EnteredTile(i)), EventView::EnteredTile(j)),
            EventView::ExitedTile(i),
        ).display_title == Some(s.shows[j as int].name),
{
}

/// A failed operation ends the busy state, shows its error and asks for the
/// error to be cleared after `ERROR_DISPLAY_SECS` seconds; the clearing
/// event then removes it.
pub proof fn lemma_failure_shown_then_cleared<P, T>(s: AppView<P, T>, message: Seq<char>)
    ensures
        next_state(s, EventView::Complete(Err(message))).error == Some(message),
        !next_state(s, EventView::Complete(Err(message))).loading,
        next_effect(s, EventView::Complete(Err(message))) == Effect::ClearErrorAfterSecs(
            ERROR_DISPLAY_SECS,
        ),
        next_state(next_state(s, EventView::Complete(Err(message))), EventView::ClearError).error
            is None,
{
}

/// Only a new list of shows changes which shows there are: any other event
/// keeps their number, their names and their folders.
pub proof fn lemma_shows_kept_between_loads<P, T>(s: AppView<P, T>, e: EventView<P, T>)
    requires
        !(e is ShowsLoaded),
    ensures
        next_state(s, e).shows.len() == s.shows.len(),
        forall|k: int|
            0 <= k < s.shows.len() ==> (#[trigger] next_state(s, e).shows[k]).name
                == s.shows[k].name && next_state(s, e).shows[k].path == s.shows[k].path,
{
}

/// A loaded thumbnail lands on its own show and on no other, and changes
/// nothing else; one for a position without a show changes nothing.
pub proof fn lemma_thumbnail_lands_on_its_show<P, T>(s: AppView<P, T>, i: usize, t: Option<T>)
    ensures
        i < s.shows.len() ==> next_state(s, EventView::ThumbnailLoaded(i, t)).shows[i as int]
            == (ShowView { thumbnail: t, ..s.shows[i as int] }),
        forall|k: int|
            0 <= k < s.shows.len() && k != i ==> #[trigger] next_state(
                s,
                EventView::ThumbnailLoaded(i, t),
            ).shows[k] == s.shows[k],
        i >= s.shows.len() ==> next_state(s, EventView::ThumbnailLoaded(i, t)) == s,
        next_state(s, EventView::ThumbnailLoaded(i, t)).loading == s.loading,
        next_state(s, EventView::ThumbnailLoaded(i, t)).error == s.error,
        next_state(s, EventView::ThumbnailLoaded(i, t)).display_title == s.display_title,
{
}

/// Events that neither complete an operation nor bring new shows keep a
/// busy launcher busy.
pub proof fn lemma_busy_stays_busy<P, T>(s: AppView<P, T>, events: Seq<EventView<P, T>>)
    requires
        s.loading,
        forall|k: int|
            0 <= k < events.len() ==> !(#[trigger] events[k] is Complete) && !(
            events[k] is ShowsLoaded),
    ensures
        run(s, events).loading,
    decreases events.len(),
{
    if events.len() > 0 {
        assert forall|k: int| 0 <= k < events.drop_first().len() implies !(
        #[trigger] events.drop_first()[k] is Complete) && !(
        events.drop_first()[k] is ShowsLoaded) by {
            assert(events.drop_first()[k] == events[k + 1]);
        }
        lemma_busy_stays_busy(next_state(s, events[0]), events.drop_first());
    }
}

/// Once the user starts playing or browsing a show, the launcher stays busy
/// until an operation completes or a new list of shows arrives.
pub proof fn lemma_busy_until_complete<P, T>(
    s: AppView<P, T>,
    i: usize,
    events: Seq<EventView<P, T>>,
)
    requires
        forall|k: int|
            0 <= k < events.len() ==> !(#[trigger] events[k] is Complete) && !(
            events[k] is ShowsLoaded),
    ensures
        run(next_state(s, EventView::PlayRandomVideo(i)), events).loading,
        run(next_state(s, EventView::BrowseShow(i)), events).loading,
{
    lemma_busy_stays_busy(next_state(s, EventView::PlayRandomVideo(i)), events);
    lemma_busy_stays_busy(next_state(s, EventView::BrowseShow(i)), events);
}

/// An error stays on display until it is cleared or a newer failure
/// replaces it.
pub proof fn lemma_error_persists<P, T>(s: AppView<P, T>, events: Seq<EventView<P, T>>)
    requires
        forall|k: int|
            0 <= k < events.len() ==> !(#[trigger] events[k] is ClearError) && !(
            events[k] matches EventView::Complete(Err(_))),
    ensures
        run(s, events).error == s.error,
    decreases events.len(),
{
    if events.len() > 0 {
        assert forall|k: int| 0 <= k < events.drop_first().len() implies !(
        #[trigger] events.drop_first()[k] is ClearError) && !(
        events.drop_first()[k] matches EventView::Complete(Err(_))) by {
            assert(events.drop_first()[k] == events[k + 1]);
        }
        lemma_error_persists(next_state(s, events[0]), events.drop_first());
    }
}

/// What each event may change. Only starting an operation makes the
/// launcher busy, and only its completion or a new list of shows ends that;
/// hovering, thumbnails and clearing the error leave it as it was. Only a
/// completion with an error sets the error, and only `ClearError` removes
/// it. Only hovering changes the title: entering shows the show's name,
/// leaving clears it when it is that show's name. Only a new list of shows,
/// or a thumbnail, changes the shows. Each event asks for its own work.
pub proof fn lemma_event_footprint<P, T>(s: AppView<P, T>, e: EventView<P, T>)
    ensures
        (e is ThumbnailLoaded || e is EnteredTile || e is ExitedTile || e is ClearError)
            ==> next_state(s, e).loading == s.loading,
        (e is PlayRandomVideo || e is BrowseShow) ==> next_state(s, e).loading,
        (e is ShowsLoaded || e is Complete) ==> !next_state(s, e).loading,
        e matches EventView::Complete(Err(m)) ==> next_state(s, e).error == Some(m),
        e is ClearError ==> next_state(s, e).error is None,
        !(e is ClearError) && !(e matches EventView::Complete(Err(_))) ==> next_state(s, e).error
            == s.error,
        !(e is EnteredTile) && !(e is ExitedTile) ==> next_state(s, e).display_title
            == s.display_title,
        e matches EventView::EnteredTile(i) ==> (i < s.shows.len() ==> next_state(
            s,
            e,
        ).display_title == Some(s.shows[i as int].name)) && (i >= s.shows.len() ==> next_state(
            s,
            e,
        ).display_title is None),
        e matches EventView::ExitedTile(i) ==> next_state(s, e).display_title == (if i
            < s.shows.len() && s.display_title == Some(s.shows[i as int].name) {
            None
        } else {
            s.display_title
        }),
        e matches EventView::ShowsLoaded(v) ==> next_state(s, e).shows == v,
        !(e is ShowsLoaded) && !(e is ThumbnailLoaded) ==> next_state(s, e).shows == s.shows,
        e matches EventView::ShowsLoaded(v) ==> next_effect(s, e) == Effect::LoadThumbnails(
            v.len() as usize,
        ),
        e matches EventView::PlayRandomVideo(i) ==> next_effect(s, e) == Effect::PlayRandomVideo(
            i,
        ),
        e matches EventView::BrowseShow(i) ==> next_effect(s, e) == Effect::BrowseShow(i),
        e matches EventView::Complete(Err(_)) ==> next_effect(s, e) == Effect::ClearErrorAfterSecs(
            1,
        ),
        (e is ThumbnailLoaded || e is EnteredTile || e is ExitedTile || e is ClearError
            || e matches EventView::Complete(Ok(_))) ==> next_effect(s, e) == Effect::Nothing,
{
}

} // verus!
