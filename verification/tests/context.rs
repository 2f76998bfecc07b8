use rsvp_reader::{App, Command};

fn session(text: &str) -> App {
    App::new(text.chars().collect())
}

#[test]
fn context_after_within_text() {
    let app = session("The quick brown fox");
    assert_eq!(app.get_word_string_forw_padded(3, 6), " quick");
    assert_eq!(app.get_word_string_forw_padded(0, 0), "");
    assert_eq!(app.get_word_string_forw_padded(4, 15), "quick brown fox");
}

#[test]
fn context_after_is_padded_at_end_of_text() {
    let app = session("The quick brown fox");
    assert_eq!(app.get_word_string_forw_padded(16, 5), "fox  ");
    assert_eq!(app.get_word_string_forw_padded(19, 4), "    ");
    assert_eq!(app.get_word_string_forw_padded(18, 1), "x");
}

#[test]
fn context_before_within_text() {
    let app = session("The quick brown fox");
    assert_eq!(app.get_word_string_back_padded(10, 6), "quick ");
    assert_eq!(app.get_word_string_back_padded(19, 0), "");
    assert_eq!(app.get_word_string_back_padded(19, 19), "The quick brown fox");
}

#[test]
fn context_before_is_padded_at_start_of_text() {
    let app = session("The quick brown fox");
    assert_eq!(app.get_word_string_back_padded(3, 5), "  The");
    assert_eq!(app.get_word_string_back_padded(0, 4), "    ");
    assert_eq!(app.get_word_string_back_padded(1, 1), "T");
}

#[test]
fn context_shows_line_feeds_as_spaces() {
    let app = session("one\ntwo\nthree");
    assert_eq!(app.get_word_string_forw_padded(3, 5), " two ");
    assert_eq!(app.get_word_string_back_padded(8, 5), " two ");
}

#[test]
fn context_has_the_length_asked_for() {
    let sample = "The quick  brown\nfox";
    let n = sample.chars().count();
    let mut app = session(sample);
    for _ in 0..6 {
        for len in [0usize, 1, 2, 5, 19, 20, 21, 64] {
            assert_eq!(app.context_before(len).chars().count(), len);
            assert_eq!(app.context_after(len).chars().count(), len);
        }
        app.next_word();
    }
    for pos in 0..=n {
        for len in 0..(n + 3) {
            assert_eq!(app.get_word_string_back_padded(pos, len).chars().count(), len);
            assert_eq!(app.get_word_string_forw_padded(pos, len).chars().count(), len);
        }
    }
}

#[test]
fn context_of_current_word() {
    let mut app = session("The quick brown fox");
    app.next_word();
    assert_eq!(app.context_before(4), "    ");
    assert_eq!(app.context_after(4), " qui");
    app.next_word();
    assert_eq!(app.context_before(6), "  The ");
    assert_eq!(app.context_after(6), " brown");
    app.next_word();
    app.next_word();
    assert_eq!(app.word_text(), "fox");
    assert_eq!(app.context_before(7), " brown ");
    assert_eq!(app.context_after(3), "   ");
}

#[test]
fn carriage_return_and_line_feed_show_as_one_space() {
    let app = session("a\r\nb");
    assert_eq!(app.get_word_string_back_padded(3, 3), "a ");
    assert_eq!(app.get_word_string_forw_padded(0, 4), "a b");
    assert_eq!(app.get_word_string_forw_padded(2, 2), " b");
    assert_eq!(app.get_word_string_back_padded(2, 2), "a\r");
}

#[test]
fn rendered_line_has_fixed_width_for_words_of_any_length() {
    let mut app = session("a bb ccc dddd eeeee ffffff ggggggg");
    app.handle_command(Command::TogglePause);
    let width: u16 = 44;
    loop {
        let done = app.next_word();
        let word = app.word_text().chars().count();
        let ctx = app.context_len(width);
        let before = app.context_before(ctx).chars().count();
        let after = app.context_after(ctx).chars().count();
        assert_eq!(before, ctx);
        assert_eq!(after, ctx);
        let total = before + word + after;
        assert!(total == 40 || total == 39);
        assert_eq!(total, 40 - (40 - word) % 2);
        if done {
            break;
        }
        // A manual step at the last word ends the session; stop before it.
        if app.word_end() + 8 >= app.text_len() {
            break;
        }
    }
}

#[test]
fn context_len_is_half_of_the_room_left() {
    let mut app = session("The quick brown fox");
    app.next_word();
    app.handle_command(Command::TogglePause);
    assert_eq!(app.context_len(40), 16);
    assert_eq!(app.context_len(41), 17);
    assert_eq!(app.context_len(8), 0);
    assert_eq!(app.context_len(9), 1);
    assert_eq!(app.context_len(7), 0);
    assert_eq!(app.context_len(4), 0);
    assert_eq!(app.context_len(0), 0);
    app.next_word();
    assert_eq!(app.context_len(40), 15);
}

#[test]
fn context_is_hidden_while_playing_unless_asked_for() {
    let mut app = session("The quick brown fox");
    app.next_word();
    assert_eq!(app.context_len(40), 0);
    app.handle_command(Command::ToggleContext);
    assert_eq!(app.context_len(40), 16);
    app.handle_command(Command::ToggleContext);
    assert_eq!(app.context_len(40), 0);
}

#[test]
fn toggling_context_twice_restores_context_lengths() {
    for paused in [false, true] {
        let mut app = session("The quick brown fox");
        app.next_word();
        if paused {
            app.handle_command(Command::TogglePause);
        }
        for width in [0u16, 4, 10, 40, 81, 200] {
            let len = app.context_len(width);
            let before = app.context_before(len);
            let after = app.context_after(len);
            app.handle_command(Command::ToggleContext);
            app.handle_command(Command::ToggleContext);
            assert_eq!(app.context_len(width), len);
            assert_eq!(app.context_before(app.context_len(width)), before);
            assert_eq!(app.context_after(app.context_len(width)), after);
        }
        assert!(!app.shows_context_when_playing());
    }
}
