use aura::summary::{
    build_prompt, compose_main_text, extract_main_text, parse_bullets, summary_prompt,
    truncate_to_tokens, AiError, Generation, MAX_NEW_TOKENS, PROMPT_HEAD, PROMPT_TAIL,
};

fn strings(v: &[&str]) -> Vec<String> {
    v.iter().map(|s| s.to_string()).collect()
}

#[test]
fn bullets_keep_marked_lines_in_order() {
    let text = "Here is a summary:\n- first point\n* second point\n\u{b7} third point\nno marker\n";
    assert_eq!(parse_bullets(text), strings(&["first point", "second point", "third point"]));
}

#[test]
fn bullets_accept_the_bullet_sign() {
    assert_eq!(
        parse_bullets("\u{2022} Alpha\n- Beta\n* Gamma"),
        strings(&["Alpha", "Beta", "Gamma"])
    );
    assert_eq!(parse_bullets("  \u{2022}\u{2022} twice"), strings(&["twice"]));
}

#[test]
fn bullets_of_joined_texts_are_concatenated() {
    let texts = ["- a\n* b", "x\r", "  1. one\r\n", "", "\u{2022} c\n\n", "- ", "plain"];
    for a in texts {
        for b in texts {
            let mut both = parse_bullets(a);
            both.extend(parse_bullets(b));
            assert_eq!(parse_bullets(&format!("{}\n{}", a, b)), both, "{:?} {:?}", a, b);
        }
    }
}

#[test]
fn bullets_strip_numbering_and_dots() {
    let text = "1. Alpha\n2) Beta\n3 - Gamma\n4. Delta";
    // `4` cannot open a bullet; `2)` keeps its parenthesis.
    assert_eq!(parse_bullets(text), strings(&["Alpha", ") Beta", "Gamma"]));
}

#[test]
fn bullets_drop_empty_ones() {
    let text = "-\n*   \n- . -\n- kept";
    assert_eq!(parse_bullets(text), strings(&["kept"]));
}

#[test]
fn bullets_handle_crlf_and_indentation() {
    let text = "  - indented\r\n\t- tabbed\r\n";
    // The tab is not a marker, so the dash after it stays.
    assert_eq!(parse_bullets(text), strings(&["indented", "- tabbed"]));
}

#[test]
fn bullets_of_empty_text() {
    assert!(parse_bullets("").is_empty());
    assert!(parse_bullets("\n\n").is_empty());
}

#[test]
fn truncation_keeps_four_chars_a_token() {
    assert_eq!(truncate_to_tokens("abcdefghij", 2), "abcdefgh");
    assert_eq!(truncate_to_tokens("abc", 2), "abc");
    assert_eq!(truncate_to_tokens("abc", 0), "");
    assert_eq!(truncate_to_tokens("\u{e9}\u{e9}\u{e9}\u{e9}\u{e9}", 1), "\u{e9}\u{e9}\u{e9}\u{e9}");
}

#[test]
fn main_text_prefers_long_article_paragraphs() {
    let html = "<html><body><p>outside</p><article><p>This is a fairly long paragraph about the browser Aura.</p><p>short</p></article></body></html>";
    assert_eq!(
        extract_main_text(html),
        "This is a fairly long paragraph about the browser Aura."
    );
}

#[test]
fn main_text_falls_back_to_all_paragraphs() {
    let html = "<html><body><p>Aura is a minimalist browser.</p><p>Second.</p></body></html>";
    assert_eq!(
        extract_main_text(html),
        "Aura is a minimalist browser. Second."
    );
}

#[test]
fn main_text_joins_long_paragraphs_with_spaces() {
    let main = strings(&[
        "0123456789012345678901234567890123456789x",
        "0123456789012345678901234567890123456789",
        "abcdefghijabcdefghijabcdefghijabcdefghijy",
    ]);
    assert_eq!(
        compose_main_text(&main, &strings(&["unused"])),
        "0123456789012345678901234567890123456789x abcdefghijabcdefghijabcdefghijabcdefghijy"
    );
    assert_eq!(compose_main_text(&strings(&["tiny"]), &strings(&["a", "b"])), "a b");
}

#[test]
fn prompt_wraps_text() {
    let p = build_prompt("page text");
    assert_eq!(p, format!("{}page text{}", PROMPT_HEAD, PROMPT_TAIL));
    assert!(p.starts_with("<|im_start|>system\nYou are a concise summarizer."));
    assert!(p.ends_with("page text<|im_end|>\n<|im_start|>assistant\n"));
}

#[test]
fn summary_prompt_of_page() {
    let html = "<p>Aura is a minimalist browser designed for focus and wellbeing.</p>";
    assert_eq!(
        summary_prompt(html),
        build_prompt("Aura is a minimalist browser designed for focus and wellbeing.")
    );
}

#[test]
fn summary_prompt_cuts_to_context() {
    let long = "x".repeat(9000);
    let html = format!("<p>{}</p>", long);
    let expected = build_prompt(&"x".repeat(8192));
    assert_eq!(summary_prompt(&html), expected);
}

#[test]
fn page_without_paragraphs_gives_empty_text() {
    assert_eq!(extract_main_text(""), "");
    assert_eq!(extract_main_text("<div>no paragraphs</div>"), "");
    assert_eq!(summary_prompt("<div>x</div>"), build_prompt(""));
}

#[test]
fn generation_stops_at_end_of_turn() {
    let mut g = Generation::new(vec![10, 11], Some(99));
    assert!(!g.is_finished());
    assert_eq!(g.last_position(), 1);
    g.feed(5);
    g.feed(6);
    assert_eq!(g.input(), &vec![10, 11, 5, 6]);
    assert_eq!(g.last_position(), 3);
    g.feed(99);
    assert!(g.is_finished());
    assert_eq!(g.generated_tokens(), &vec![5, 6]);
}

#[test]
fn generation_stops_after_budget() {
    let mut g = Generation::new(vec![1], None);
    let mut fed = 0;
    while !g.is_finished() {
        g.feed(7);
        fed += 1;
    }
    assert_eq!(fed, MAX_NEW_TOKENS);
    assert_eq!(g.generated_tokens().len(), MAX_NEW_TOKENS);
}

#[test]
fn generation_default_end_token_is_zero() {
    let mut g = Generation::new(vec![1], None);
    g.feed(0);
    assert!(g.is_finished());
    assert!(g.generated_tokens().is_empty());
}

#[test]
fn ai_error_messages() {
    assert_eq!(AiError::Candle("x".into()).message(), "Candle error: x");
    assert_eq!(AiError::Tokenizer("y".into()).message(), "Tokenizer error: y");
    assert_eq!(AiError::Io("z".into()).message(), "IO error: z");
    assert_eq!(AiError::Api("w".into()).message(), "API error: w");
}

fn bullets_by_line_filtering(text: &str) -> Vec<String> {
    text.lines()
        .filter(|l| {
            let t = l.trim();
            t.starts_with('\u{2022}')
                || t.starts_with('\u{b7}')
                || t.starts_with('-')
                || t.starts_with('*')
                || t.starts_with('1')
                || t.starts_with('2')
                || t.starts_with('3')
        })
        .map(|l| {
            l.trim_start_matches(|c: char| {
                c == '\u{2022}' || c == '\u{b7}' || c == '-' || c == '*' || c == ' ' || c.is_ascii_digit() || c == '.'
            })
            .trim()
            .to_string()
        })
        .filter(|l| !l.is_empty())
        .collect()
}

#[test]
fn bullets_agree_with_line_filtering_on_many_inputs() {
    let alphabet = [
        '-', '*', '\u{2022}', '\u{b7}', '1', '2', '3', '4', '9', '.', ' ', '\t', '\n', '\r', 'a', 'Z',
        '\u{a0}', '\u{2003}', '\u{3000}', '\u{e9}', ')',
    ];
    let mut seed: u64 = 0x2545_f491_4f6c_dd1d;
    for _ in 0..4000 {
        seed = seed.wrapping_mul(6364136223846793005).wrapping_add(1442695040888963407);
        let len = (seed >> 58) as usize;
        let mut s = String::new();
        for _ in 0..len {
            seed = seed.wrapping_mul(6364136223846793005).wrapping_add(1442695040888963407);
            s.push(alphabet[(seed >> 33) as usize % alphabet.len()]);
        }
        assert_eq!(parse_bullets(&s), bullets_by_line_filtering(&s), "input {:?}", s);
    }
}
