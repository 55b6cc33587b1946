use vid_launcher::launcher::{tile_button_event, update, AppState, Effect, Event, TileButton};
use vid_launcher::shows::Show;

fn show(name: &str, path: &str) -> Show<String, u32> {
    Show::new(path.to_string(), Some(name)).unwrap()
}

fn loaded() -> AppState<String, u32> {
    let mut app = AppState::new();
    let effect = update(
        &mut app,
        Event::ShowsLoaded(vec![show("Alpha", "/v/Alpha"), show("Beta", "/v/Beta")]),
    );
    assert_eq!(effect, Effect::LoadThumbnails(2));
    app
}

#[test]
fn starts_loading_without_shows() {
    let app: AppState<String, u32> = AppState::new();
    assert!(app.shows.is_empty());
    assert!(app.loading);
    assert_eq!(app.error, None);
    assert_eq!(app.display_title, None);
}

#[test]
fn shows_loaded_ends_loading() {
    let app = loaded();
    assert!(!app.loading);
    assert_eq!(app.shows.len(), 2);
    assert_eq!(app.shows[1].name, "Beta");
}

#[test]
fn thumbnails_land_on_their_show() {
    let mut app = loaded();
    assert_eq!(update(&mut app, Event::ThumbnailLoaded(1, Some(42))), Effect::Nothing);
    assert_eq!(app.shows[1].thumbnail, Some(42));
    assert_eq!(app.shows[0].thumbnail, None);
    assert_eq!(update(&mut app, Event::ThumbnailLoaded(7, Some(1))), Effect::Nothing);
    assert_eq!(app.shows[0].thumbnail, None);
    assert_eq!(app.shows[1].thumbnail, Some(42));
    assert_eq!(app.shows.len(), 2);
    assert_eq!(app.shows[0].name, "Alpha");
    assert_eq!(app.shows[1].path, "/v/Beta");
}

#[test]
fn title_follows_the_mouse() {
    let mut app = loaded();
    update(&mut app, Event::EnteredTile(0));
    assert_eq!(app.display_title, Some("Alpha".to_string()));
    update(&mut app, Event::ExitedTile(0));
    assert_eq!(app.display_title, None);
}

#[test]
fn late_exit_keeps_the_new_title() {
    let mut app = loaded();
    update(&mut app, Event::EnteredTile(0));
    update(&mut app, Event::EnteredTile(1));
    update(&mut app, Event::ExitedTile(0));
    assert_eq!(app.display_title, Some("Beta".to_string()));
    update(&mut app, Event::EnteredTile(9));
    assert_eq!(app.display_title, None);
}

#[test]
fn playing_and_browsing_make_the_launcher_busy() {
    let mut app = loaded();
    assert_eq!(update(&mut app, Event::PlayRandomVideo(1)), Effect::PlayRandomVideo(1));
    assert!(app.loading);
    assert_eq!(update(&mut app, Event::Complete(Ok(()))), Effect::Nothing);
    assert!(!app.loading);
    assert_eq!(update(&mut app, Event::BrowseShow(0)), Effect::BrowseShow(0));
    assert!(app.loading);
}

#[test]
fn errors_are_shown_then_cleared() {
    let mut app = loaded();
    update(&mut app, Event::PlayRandomVideo(0));
    let effect =
        update(&mut app, Event::Complete(Err("No video files found in folder".to_string())));
    assert_eq!(effect, Effect::ClearErrorAfterSecs(1));
    assert!(!app.loading);
    assert_eq!(app.error, Some("No video files found in folder".to_string()));
    update(&mut app, Event::EnteredTile(0));
    assert!(app.error.is_some());
    assert_eq!(update(&mut app, Event::ClearError), Effect::Nothing);
    assert_eq!(app.error, None);
}

#[test]
fn buttons_are_disabled_while_busy() {
    let mut app = loaded();
    assert!(matches!(
        tile_button_event(&app, 1, TileButton::Play),
        Some(Event::PlayRandomVideo(1))
    ));
    assert!(matches!(tile_button_event(&app, 0, TileButton::Browse), Some(Event::BrowseShow(0))));
    update(&mut app, Event::PlayRandomVideo(1));
    assert!(tile_button_event(&app, 1, TileButton::Play).is_none());
    assert!(tile_button_event(&app, 0, TileButton::Browse).is_none());
}

#[test]
fn show_needs_a_name() {
    let s: Option<Show<&str, ()>> = Show::new("/v/Gamma", Some("Gamma"));
    let s = s.unwrap();
    assert_eq!(s.name, "Gamma");
    assert_eq!(s.path, "/v/Gamma");
    assert!(s.thumbnail.is_none());
    let none: Option<Show<&str, ()>> = Show::new("/", None);
    assert!(none.is_none());
}
