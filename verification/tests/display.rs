use blumbotron::display::{display_window_label, display_window_title, display_window_url, greet};

#[test]
fn window_texts_name_game_and_display() {
    let game = Some("pinball".to_string());
    assert_eq!(display_window_label(&game, Some(2)), "display-pinball-2");
    assert_eq!(display_window_label(&None, None), "display-default-0");
    assert_eq!(
        display_window_url(&game, Some(2)),
        "viewer.html?mode=display&game=pinball&displayIndex=2"
    );
    assert_eq!(display_window_url(&game, None), "viewer.html?mode=display&game=pinball");
    assert_eq!(display_window_url(&None, Some(0)), "viewer.html?mode=display&displayIndex=0");
    assert_eq!(display_window_url(&None, None), "viewer.html?mode=display");
    assert_eq!(display_window_title(&game, Some(2)), "Blumbotron Display - pinball (3)");
    assert_eq!(display_window_title(&None, None), "Blumbotron Display - default (1)");
    assert_eq!(
        display_window_title(&None, Some(u32::MAX)),
        "Blumbotron Display - default (4294967296)"
    );
}

#[test]
fn greeting_names_the_guest() {
    assert_eq!(greet("Ada"), "Hello, Ada! Welcome to Blumbotron!");
    assert_eq!(greet(""), "Hello, ! Welcome to Blumbotron!");
}
