use npulama::config::Config;
use npulama::icon::{icon_rgba, pixel_at};
use npulama::proxy::{Admission, Header, ProxyState, RequestHead};
use npulama::token::{can_preview, generate_token, token_from, token_preview};

#[test]
fn generated_tokens_have_their_form() {
    let a = generate_token();
    let b = generate_token();
    for t in [&a, &b] {
        assert_eq!(t.len(), 51);
        assert!(t.starts_with("sk-"));
        assert!(t[3..].chars().all(|c| c.is_ascii_digit() || c.is_ascii_lowercase()));
    }
    assert_ne!(a, b);
}

#[test]
fn draws_are_written() {
    assert_eq!(token_from(&vec![0, 9, 10, 35]), "sk-09az");
    assert_eq!(token_from(&vec![]), "sk-");
    assert_ne!(token_from(&vec![1, 2]), token_from(&vec![2, 1]));
}

#[test]
fn generated_token_is_accepted() {
    let token = generate_token();
    let mut config = Config::default();
    config.require_auth = true;
    config.tokens.push(token.clone());
    let value = format!("Bearer {}", token).into_bytes();
    let head = RequestHead {
        method: "GET".to_string(),
        path_and_query: None,
        headers: vec![Header { name: "authorization".to_string(), value }],
    };
    assert!(matches!(ProxyState::new(&config).receive(head), Admission::Forward(_)));
}

#[test]
fn previews_are_cut() {
    assert_eq!(token_preview("sk-short"), "sk-short\u{2026}");
    assert_eq!(token_preview(""), "\u{2026}");
    assert_eq!(token_preview("0123456789012345678901"), "0123456789012345678901\u{2026}");
    assert_eq!(token_preview("01234567890123456789012"), "0123456789012345678901\u{2026}");
    assert_eq!(token_preview("\u{e9}\u{e9}\u{e9}\u{e9}\u{e9}\u{e9}\u{e9}\u{e9}\u{e9}\u{e9}\u{e9}\u{e9}"),
        "\u{e9}\u{e9}\u{e9}\u{e9}\u{e9}\u{e9}\u{e9}\u{e9}\u{e9}\u{e9}\u{e9}\u{2026}");
    assert!(can_preview("sk-short"));
    assert!(!can_preview("x\u{e9}\u{e9}\u{e9}\u{e9}\u{e9}\u{e9}\u{e9}\u{e9}\u{e9}\u{e9}\u{e9}\u{e9}"));
}

#[test]
fn icon_is_a_disc_in_a_ring() {
    let rgba = icon_rgba();
    assert_eq!(rgba.len(), 4096);
    let at = |x: usize, y: usize| rgba[(y * 32 + x) * 4..(y * 32 + x) * 4 + 4].to_vec();
    assert_eq!(at(0, 0), vec![0, 0, 0, 0]);
    assert_eq!(at(16, 16), vec![30, 140, 220, 255]);
    assert_eq!(at(16, 5), vec![30, 140, 220, 255]);
    assert_eq!(at(16, 4), vec![0, 120, 215, 255]);
    assert_eq!(at(1, 16), vec![0, 120, 215, 255]);
    assert_eq!(at(0, 16), vec![0, 0, 0, 0]);
    assert_eq!(at(31, 16), vec![0, 120, 215, 255]);
}

#[test]
fn icon_agrees_with_distances() {
    for y in 0..32u32 {
        for x in 0..32u32 {
            let dx = x as f32 - 16.0;
            let dy = y as f32 - 16.0;
            let d2 = dx * dx + dy * dy;
            let expected = if d2 <= (16.0f32 - 5.0).powi(2) {
                (30, 140, 220, 255)
            } else if d2 <= (16.0f32 - 1.0).powi(2) {
                (0, 120, 215, 255)
            } else {
                (0, 0, 0, 0)
            };
            assert_eq!(pixel_at(x, y), expected);
        }
    }
}
