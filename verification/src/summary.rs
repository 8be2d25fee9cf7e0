//! Page-summary text handling: the bullets read back from the model's
//! answer, the page text fed to it, and the prompt built around that text.
use vstd::prelude::*;
use vstd::string::StrSliceExecFns;
use vstd::utf8::encode_utf8;
use crate::text::{
    char_views, chars_of, concat_str, is_ws, join, join_strings, lines, lines_acc,
    lines_of_joined, split_lines, string_of, string_views, strip_cr, trim, trim_push_ws,
    trim_range, trim_start,
};

verus! {

/// A character that can open a bullet line once the line is trimmed:
/// a bullet `\u{2022}`, a middle dot, `-`, `*`, or one of the digits `1`,
/// `2`, `3`.
pub open spec fn is_bullet_lead(c: char) -> bool {
    c == '\u{2022}' || c == '\u{b7}' || c == '-' || c == '*' || c == '1' || c == '2' || c == '3'
}

/// A character stripped from the front of a bullet line: a bullet, a middle
/// dot, `-`, `*`, a space, a decimal digit or `.`.
pub open spec fn is_marker(c: char) -> bool {
    c == '\u{2022}' || c == '\u{b7}' || c == '-' || c == '*' || c == ' ' || ('0' <= c && c
        <= '9') || c == '.'
}

/// `s` with its leading marker characters removed.
pub open spec fn strip_markers(s: Seq<char>) -> Seq<char>
    decreases s.len(),
{
    if s.len() > 0 && is_marker(s[0]) {
        strip_markers(s.drop_first())
    } else {
        s
    }
}

/// Whether a line counts as a bullet: trimmed, it starts with a bullet lead.
pub open spec fn is_bullet_line(l: Seq<char>) -> bool {
    trim(l).len() > 0 && is_bullet_lead(trim(l)[0])
}

/// The text of a bullet line: its leading markers removed, then trimmed.
pub open spec fn bullet_text(l: Seq<char>) -> Seq<char> {
    trim(strip_markers(l))
}

/// The bullets of a sequence of lines: the text of every bullet line whose
/// text is not empty, in order.
pub open spec fn bullets(ls: Seq<Seq<char>>) -> Seq<Seq<char>>
    decreases ls.len(),
{
    if ls.len() == 0 {
        Seq::empty()
    } else {
        let prev = bullets(ls.drop_last());
        if is_bullet_line(ls.last()) && bullet_text(ls.last()).len() > 0 {
            prev.push(bullet_text(ls.last()))
        } else {
            prev
        }
    }
}

/// A carriage return at the end of a line passes through marker stripping.
proof fn strip_markers_push_cr(y: Seq<char>)
    ensures
        strip_markers(y.push('\r')) == strip_markers(y).push('\r'),
    decreases y.len(),
{
    if y.len() == 0 {
        assert(y.push('\r') =~= seq!['\r']);
        assert(Seq::<char>::empty().push('\r') =~= seq!['\r']);
    } else if is_marker(y[0]) {
        assert(y.push('\r').drop_first() =~= y.drop_first().push('\r'));
        strip_markers_push_cr(y.drop_first());
    }
}

/// A line ending in a carriage return counts as the line without it.
proof fn bullet_line_strip_cr(l: Seq<char>)
    ensures
        is_bullet_line(strip_cr(l)) == is_bullet_line(l),
        bullet_text(strip_cr(l)) == bullet_text(l),
{
    if l.len() > 0 && l.last() == '\r' {
        let y = l.drop_last();
        assert(y.push('\r') =~= l);
        assert(is_ws('\r'));
        trim_push_ws(y, '\r');
        strip_markers_push_cr(y);
        trim_push_ws(strip_markers(y), '\r');
    }
}

/// The bullets of two runs of lines are those of each, in order.
proof fn bullets_append(x: Seq<Seq<char>>, y: Seq<Seq<char>>)
    ensures
        bullets(x + y) == bullets(x) + bullets(y),
    decreases y.len(),
{
    if y.len() == 0 {
        assert(x + y =~= x);
        assert(bullets(x) + Seq::<Seq<char>>::empty() =~= bullets(x));
    } else {
        bullets_append(x, y.drop_last());
        assert((x + y).drop_last() =~= x + y.drop_last());
        assert((x + y).last() == y.last());
        let l = y.last();
        if is_bullet_line(l) && bullet_text(l).len() > 0 {
            assert((bullets(x) + bullets(y.drop_last())).push(bullet_text(l)) =~= bullets(x)
                + bullets(y.drop_last()).push(bullet_text(l)));
        }
    }
}

/// Bullets are found line by line: the bullets of two texts joined by a
/// newline are the bullets of the first followed by those of the second.
pub proof fn bullets_of_joined_texts(a: Seq<char>, b: Seq<char>)
    ensures
        bullets(lines(a + seq!['\n'] + b)) == bullets(lines(a)) + bullets(lines(b)),
{
    lines_of_joined(a, b);
    let (done, cur) = lines_acc(a);
    let first = done.push(strip_cr(cur));
    bullets_append(first, lines(b));
    bullet_line_strip_cr(cur);
    assert(first.drop_last() =~= done);
    if cur.len() == 0 {
        assert(trim_start(Seq::<char>::empty()) == Seq::<char>::empty());
        assert(trim(Seq::<char>::empty()) =~= Seq::<char>::empty());
    } else {
        let whole = done.push(cur);
        assert(whole.drop_last() =~= done);
    }
}

/// How far the leading markers of `l` reach.
proof fn marker_run(l: Seq<char>) -> (k: int)
    ensures
        0 <= k <= l.len(),
        strip_markers(l) == l.skip(k),
        forall|j: int| 0 <= j < k ==> is_marker(#[trigger] l[j]),
        k < l.len() ==> !is_marker(l[k]),
    decreases l.len(),
{
    if l.len() > 0 && is_marker(l[0]) {
        let k = marker_run(l.drop_first());
        assert(l.drop_first().skip(k) =~= l.skip(k + 1));
        assert forall|j: int| 0 <= j < k + 1 implies is_marker(#[trigger] l[j]) by {
            if j > 0 {
                assert(l[j] == l.drop_first()[j - 1]);
            }
        }
        k + 1
    } else {
        assert(l.skip(0) =~= l);
        0
    }
}

/// Marker stripping removes exactly the leading run of bullets, middle
/// dots, `-`, `*`, spaces, decimal digits and `.`, and nothing after it.
pub proof fn strip_markers_drops_leading_run(l: Seq<char>)
    ensures
        exists|k: int|
            0 <= k <= l.len() && strip_markers(l) == l.skip(k) && (forall|j: int|
                0 <= j < k ==> {
                    let c = #[trigger] l[j];
                    c == '\u{2022}' || c == '\u{b7}' || c == '-' || c == '*' || c == ' ' || (
                    '0' <= c && c <= '9') || c == '.'
                }) && (k < l.len() ==> {
                let c = l[k];
                !(c == '\u{2022}' || c == '\u{b7}' || c == '-' || c == '*' || c == ' ' || (
                '0' <= c && c <= '9') || c == '.')
            }),
{
    let k = marker_run(l);
    assert forall|j: int| 0 <= j < k implies {
        let c = #[trigger] l[j];
        c == '\u{2022}' || c == '\u{b7}' || c == '-' || c == '*' || c == ' ' || ('0' <= c && c
            <= '9') || c == '.'
    } by {
        assert(is_marker(l[j]));
    }
}

/// One line gives one bullet or none: a line that, trimmed, starts with a
/// bullet, a middle dot, `-`, `*`, `1`, `2` or `3` gives its text with the
/// leading markers stripped and then trimmed, unless that is empty; any
/// other line gives nothing.
pub proof fn bullets_of_one_line(l: Seq<char>)
    ensures
        bullets(seq![l]) == (if trim(l).len() > 0 && ({
            let c = trim(l)[0];
            c == '\u{2022}' || c == '\u{b7}' || c == '-' || c == '*' || c == '1' || c == '2' || c
                == '3'
        }) && trim(strip_markers(l)).len() > 0 {
            seq![trim(strip_markers(l))]
        } else {
            Seq::<Seq<char>>::empty()
        }),
{
    let one = seq![l];
    assert(one.drop_last() =~= Seq::<Seq<char>>::empty());
    assert(one.last() == l);
    assert(bullets(one.drop_last()) == Seq::<Seq<char>>::empty());
    assert(Seq::<Seq<char>>::empty().push(trim(strip_markers(l))) =~= seq![trim(strip_markers(l))]);
}

fn is_bullet_lead_char(c: char) -> (b: bool)
    ensures
        b == is_bullet_lead(c),
{
    c == '\u{2022}' || c == '\u{b7}' || c == '-' || c == '*' || c == '1' || c == '2' || c == '3'
}

fn is_marker_char(c: char) -> (b: bool)
    ensures
        b == is_marker(c),
{
    c == '\u{2022}' || c == '\u{b7}' || c == '-' || c == '*' || c == ' ' || ('0' <= c && c
        <= '9') || c == '.'
}

/// The first position at or after `from` in `cs[..to]` that is not a marker.
fn skip_markers(cs: &Vec<char>, from: usize, to: usize) -> (i: usize)
    requires
        from <= to <= cs.len(),
    ensures
        from <= i <= to,
        cs@.subrange(i as int, to as int) == strip_markers(cs@.subrange(from as int, to as int)),
{
    let mut i = from;
    while i < to && is_marker_char(cs[i])
        invariant
            from <= i <= to <= cs.len(),
            strip_markers(cs@.subrange(from as int, to as int)) == strip_markers(
                cs@.subrange(i as int, to as int),
            ),
        decreases to - i,
    {
        assert(cs@.subrange(i as int, to as int).drop_first() == cs@.subrange(i + 1, to as int));
        i = i + 1;
    }
    i
}

/// The bullet points of a model answer: of each line of `text` that,
/// trimmed, starts with a bullet, a middle dot, `-`, `*`, `1`, `2` or `3`, the line
/// with its leading markers stripped and then trimmed, where that is not
/// empty.
pub fn parse_bullets(text: &str) -> (out: Vec<String>)
    ensures
        string_views(out@) == bullets(lines(text@)),
{
    let cs = chars_of(text);
    let ls = split_lines(&cs);
    let mut out: Vec<String> = Vec::new();
    let n = ls.len();
    for i in 0..n
        invariant
            n == ls.len(),
            char_views(ls@) == lines(text@),
            string_views(out@) == bullets(char_views(ls@).take(i as int)),
    {
        let ghost before = string_views(out@);
        let ghost all = char_views(ls@);
        assert(all.take(i + 1).drop_last() == all.take(i as int));
        assert(all.take(i + 1).last() == ls@[i as int]@);
        let l = &ls[i];
        let (a, b) = trim_range(l, 0, l.len());
        assert(l@.subrange(0, l@.len() as int) == l@);
        if a < b && is_bullet_lead_char(l[a]) {
            let m = skip_markers(l, 0, l.len());
            let (c, d) = trim_range(l, m, l.len());
            if c < d {
                out.push(string_of(l, c, d));
                assert(string_views(out@) == before.push(string_views(out@).last()));
            }
        }
    }
    assert(char_views(ls@).take(n as int) == char_views(ls@));
    out
}


/// The number of characters kept for a budget of `max_tokens` tokens, at
/// four characters a token.
pub open spec fn char_budget(max_tokens: nat) -> nat {
    max_tokens * 4
}

/// The first `max_tokens * 4` characters of `text` (all of it when it is
/// shorter): a rough cut to a token budget at four characters a token.
pub fn truncate_to_tokens(text: &str, max_tokens: usize) -> (s: String)
    requires
        max_tokens * 4 <= usize::MAX,
    ensures
        s@ == text@.take(
            if text@.len() < char_budget(max_tokens as nat) {
                text@.len() as int
            } else {
                char_budget(max_tokens as nat) as int
            },
        ),
{
    let budget = max_tokens * 4;
    let len = text.unicode_len();
    let keep = if len < budget {
        len
    } else {
        budget
    };
    text.substring_char(0, keep).to_owned()
}

/// The long paragraphs are exactly the paragraphs of more than 40 UTF-8
/// bytes, in their order.
pub proof fn long_paragraphs_are_those_over_40_bytes(ps: Seq<Seq<char>>)
    ensures
        long_paragraphs(ps) == ps.filter(|p: Seq<char>| encode_utf8(p).len() > 40),
    decreases ps.len(),
{
    reveal(Seq::filter);
    if ps.len() > 0 {
        long_paragraphs_are_those_over_40_bytes(ps.drop_last());
    }
}

/// Paragraphs of at most 40 bytes give no long paragraph.
proof fn no_long_paragraphs(ps: Seq<Seq<char>>)
    requires
        forall|i: int| 0 <= i < ps.len() ==> encode_utf8(#[trigger] ps[i]).len() <= 40,
    ensures
        long_paragraphs(ps).len() == 0,
    decreases ps.len(),
{
    if ps.len() > 0 {
        let q = ps.drop_last();
        assert forall|i: int| 0 <= i < q.len() implies encode_utf8(#[trigger] q[i]).len() <= 40 by {
            assert(q[i] == ps[i]);
        }
        no_long_paragraphs(q);
    }
}

/// The main content decides: whenever the main-content selector
/// (`article p, main p, .content p, [role='main'] p`) finds a paragraph of
/// more than 40 bytes, the page text is the paragraphs it finds of more
/// than 40 bytes, in order, joined by single spaces, and nothing else.
pub proof fn main_content_decides_page_text(html: Seq<char>, main: Seq<Seq<char>>, i: int)
    requires
        selected_texts(html, "article p, main p, .content p, [role='main'] p"@) == Some(main),
        0 <= i < main.len(),
        encode_utf8(main[i]).len() > 40,
    ensures
        page_text(html) == Some(
            join(main.filter(|p: Seq<char>| encode_utf8(p).len() > 40), " "@),
        ),
{
    long_paragraphs_are_those_over_40_bytes(main);
    main.lemma_filter_contains(|p: Seq<char>| encode_utf8(p).len() > 40, i);
}

/// Without a long main-content paragraph the page text falls back to every
/// paragraph (`p`) of the page, joined by single spaces.
pub proof fn page_text_falls_back_to_all_paragraphs(
    html: Seq<char>,
    main: Seq<Seq<char>>,
    all: Seq<Seq<char>>,
)
    requires
        selected_texts(html, "article p, main p, .content p, [role='main'] p"@) == Some(main),
        forall|i: int| 0 <= i < main.len() ==> encode_utf8(#[trigger] main[i]).len() <= 40,
        selected_texts(html, "p"@) == Some(all),
    ensures
        page_text(html) == Some(join(all, " "@)),
{
    no_long_paragraphs(main);
}

/// What the document selector of the `scraper` crate finds in `html` for
/// `selector`: the text of each matching element, in document order, or
/// `None` when the selector does not parse.
pub uninterp spec fn selected_texts(html: Seq<char>, selector: Seq<char>) -> Option<Seq<Seq<char>>>;

/// Parses `html` as a document with `scraper::Html::parse_document`, and
/// returns the concatenated text of each element that
/// `scraper::Selector::parse(selector)` selects; `None` where the selector
/// does not parse. The contract names the result and states only that the
/// two selectors of this module parse (both are plain CSS that the
/// `selectors` grammar accepts); it says nothing of the texts.
#[verifier::external_body]
fn select_texts(html: &str, selector: &str) -> (r: Option<Vec<String>>)
    ensures
        selector@ == MAIN_SELECTOR@ ==> r is Some,
        selector@ == PARAGRAPH_SELECTOR@ ==> r is Some,
        match r {
            Some(v) => selected_texts(html@, selector@) == Some(string_views(v@)),
            None => selected_texts(html@, selector@) is None,
        },
{
    let sel = match scraper::Selector::parse(selector) {
        Ok(sel) => sel,
        Err(_) => return None,
    };
    let doc = scraper::Html::parse_document(html);
    let mut out = Vec::new();
    for el in doc.select(&sel) {
        out.push(el.text().collect::<String>());
    }
    Some(out)
}

/// Selector of paragraphs inside the main content of a page.
pub const MAIN_SELECTOR: &'static str = "article p, main p, .content p, [role='main'] p";

/// Selector of every paragraph.
pub const PARAGRAPH_SELECTOR: &'static str = "p";

/// The paragraphs longer than 40 bytes in UTF-8, in order.
pub open spec fn long_paragraphs(ps: Seq<Seq<char>>) -> Seq<Seq<char>>
    decreases ps.len(),
{
    if ps.len() == 0 {
        Seq::empty()
    } else {
        let prev = long_paragraphs(ps.drop_last());
        if encode_utf8(ps.last()).len() > 40 {
            prev.push(ps.last())
        } else {
            prev
        }
    }
}

/// The page text made of the main-content paragraphs and all paragraphs:
/// the long main-content paragraphs joined by spaces, or, when there is
/// none, all paragraphs joined by spaces.
pub open spec fn main_text(main: Seq<Seq<char>>, all: Seq<Seq<char>>) -> Seq<char> {
    if long_paragraphs(main).len() > 0 {
        join(long_paragraphs(main), " "@)
    } else {
        join(all, " "@)
    }
}

/// The paragraphs of `ps` longer than 40 bytes.
pub fn keep_long_paragraphs(ps: &Vec<String>) -> (out: Vec<String>)
    ensures
        string_views(out@) == long_paragraphs(string_views(ps@)),
{
    let mut out: Vec<String> = Vec::new();
    let n = ps.len();
    for i in 0..n
        invariant
            n == ps.len(),
            string_views(out@) == long_paragraphs(string_views(ps@).take(i as int)),
    {
        let ghost all = string_views(ps@);
        let ghost before = string_views(out@);
        assert(all.take(i + 1).drop_last() == all.take(i as int));
        if ps[i].as_str().as_bytes().len() > 40 {
            out.push(ps[i].clone());
            assert(string_views(out@) == before.push(all[i as int]));
        }
    }
    assert(string_views(ps@).take(n as int) == string_views(ps@));
    out
}

/// The page text from the paragraphs already selected: the long
/// main-content paragraphs joined by spaces, or all paragraphs joined.
pub fn compose_main_text(main: &Vec<String>, all: &Vec<String>) -> (s: String)
    ensures
        s@ == main_text(string_views(main@), string_views(all@)),
{
    let long = keep_long_paragraphs(main);
    if long.len() > 0 {
        join_strings(&long, " ")
    } else {
        join_strings(all, " ")
    }
}

/// The readable text of an HTML page, as the two selections give it; `None`
/// where a selection fails.
pub open spec fn page_text(html: Seq<char>) -> Option<Seq<char>> {
    match selected_texts(html, MAIN_SELECTOR@) {
        None => None,
        Some(main) => if long_paragraphs(main).len() > 0 {
            Some(main_text(main, Seq::empty()))
        } else {
            match selected_texts(html, PARAGRAPH_SELECTOR@) {
                None => None,
                Some(all) => Some(main_text(main, all)),
            }
        },
    }
}

/// The readable text of an HTML page: the main-content paragraphs longer
/// than 40 bytes joined by spaces, or, when there are none, every paragraph
/// joined by spaces.
pub fn extract_main_text(html: &str) -> (s: String)
    ensures
        page_text(html@) == Some(s@),
{
    let main = match select_texts(html, MAIN_SELECTOR) {
        Some(main) => main,
        None => {
            proof {
                assert(false);
            }
            Vec::new()
        },
    };
    let long = keep_long_paragraphs(&main);
    if long.len() > 0 {
        let none: Vec<String> = Vec::new();
        assert(string_views(none@) == Seq::<Seq<char>>::empty());
        return compose_main_text(&main, &none);
    }
    let all = match select_texts(html, PARAGRAPH_SELECTOR) {
        Some(all) => all,
        None => {
            proof {
                assert(false);
            }
            Vec::new()
        },
    };
    compose_main_text(&main, &all)
}


/// The part of the prompt before the page text.
pub const PROMPT_HEAD: &'static str = "<|im_start|>system\nYou are a concise summarizer. Respond with exactly 3 bullet points, each under 20 words. No preamble.<|im_end|>\n<|im_start|>user\nSummarise this page:\n";

/// The part of the prompt after the page text.
pub const PROMPT_TAIL: &'static str = "<|im_end|>\n<|im_start|>assistant\n";

/// The token budget for the page text in a prompt.
pub const CONTEXT_TOKENS: usize = 2048;

/// The prompt around a page text.
pub open spec fn prompt_text(text: Seq<char>) -> Seq<char> {
    PROMPT_HEAD@ + text + PROMPT_TAIL@
}

/// The chat prompt that asks for a three-bullet summary of `text`.
pub fn build_prompt(text: &str) -> (s: String)
    ensures
        s@ == prompt_text(text@),
{
    let mut s = PROMPT_HEAD.to_owned();
    s.append(text);
    s.append(PROMPT_TAIL);
    s
}

/// `t` cut to the prompt's character budget.
pub open spec fn cut_to_context(t: Seq<char>) -> Seq<char> {
    if t.len() < char_budget(CONTEXT_TOKENS as nat) {
        t
    } else {
        t.take(char_budget(CONTEXT_TOKENS as nat) as int)
    }
}

/// The prompt for an HTML page: its readable text cut to the context
/// budget, inside the summary instructions.
pub open spec fn page_prompt(html: Seq<char>) -> Option<Seq<char>> {
    match page_text(html) {
        Some(t) => Some(prompt_text(cut_to_context(t))),
        None => None,
    }
}

/// The summary prompt for an HTML page: its readable text, cut to the
/// context budget, inside the summary instructions.
pub fn summary_prompt(html: &str) -> (s: String)
    ensures
        page_prompt(html@) == Some(s@),
{
    let text = extract_main_text(html);
    let cut = truncate_to_tokens(text.as_str(), CONTEXT_TOKENS);
    assert(text@.take(text@.len() as int) == text@);
    build_prompt(cut.as_str())
}

/// The most tokens a summary may generate.
pub const MAX_NEW_TOKENS: usize = 180;

/// The token that ends the model's turn.
pub const END_OF_TURN: &'static str = "<|im_end|>";

/// Greedy decoding of a summary, one token at a time: the prompt's tokens
/// followed by those generated so far, which stops at the end-of-turn
/// token or after `MAX_NEW_TOKENS` tokens.
pub struct Generation {
    tokens: Vec<u32>,
    generated: Vec<u32>,
    prompt: Ghost<Seq<u32>>,
    eos: u32,
    stopped: bool,
}

impl Generation {
    /// The prompt's tokens.
    pub closed spec fn prompt(&self) -> Seq<u32> {
        self.prompt@
    }

    /// The tokens generated so far.
    pub closed spec fn generated(&self) -> Seq<u32> {
        self.generated@
    }

    /// The end-of-turn token.
    pub closed spec fn eos(&self) -> u32 {
        self.eos
    }

    /// Whether the end-of-turn token has come.
    pub closed spec fn stopped(&self) -> bool {
        self.stopped
    }

    /// Whether decoding is over.
    pub open spec fn finished(&self) -> bool {
        self.stopped() || self.generated().len() >= MAX_NEW_TOKENS
    }

    /// The decoder's invariant: the model's input is the prompt followed by
    /// the generated tokens, none of which is the end-of-turn token, and no
    /// more than `MAX_NEW_TOKENS` of them.
    pub closed spec fn wf(&self) -> bool {
        &&& self.tokens@ == self.prompt@ + self.generated@
        &&& self.generated@.len() <= MAX_NEW_TOKENS
        &&& forall|i: int| 0 <= i < self.generated@.len() ==> self.generated@[i] != self.eos
    }

    /// Starts decoding after `prompt`; the end-of-turn token is `eos`, or 0
    /// where the tokenizer does not know it.
    pub fn new(prompt: Vec<u32>, eos: Option<u32>) -> (g: Self)
        ensures
            g.wf(),
            g.prompt() == prompt@,
            g.generated() == Seq::<u32>::empty(),
            g.eos() == (match eos {
                Some(t) => t,
                None => 0,
            }),
            !g.stopped(),
    {
        let eos = match eos {
            Some(t) => t,
            None => 0,
        };
        let ghost p = prompt@;
        let g = Generation {
            tokens: prompt,
            generated: Vec::new(),
            prompt: Ghost(p),
            eos,
            stopped: false,
        };
        assert(g.tokens@ == g.prompt@ + g.generated@);
        g
    }

    /// Whether decoding is over.
    pub fn is_finished(&self) -> (b: bool)
        ensures
            b == self.finished(),
    {
        self.stopped || self.generated.len() >= MAX_NEW_TOKENS
    }

    /// The model's input: the prompt followed by the generated tokens.
    pub fn input(&self) -> (t: &Vec<u32>)
        requires
            self.wf(),
        ensures
            t@ == self.prompt() + self.generated(),
    {
        &self.tokens
    }

    /// The position of the last input token, which the model is asked to
    /// continue from.
    pub fn last_position(&self) -> (p: usize)
        requires
            self.wf(),
            self.prompt().len() + self.generated().len() > 0,
        ensures
            p == self.prompt().len() + self.generated().len() - 1,
    {
        self.tokens.len() - 1
    }

    /// The tokens generated so far.
    pub fn generated_tokens(&self) -> (t: &Vec<u32>)
        ensures
            t@ == self.generated(),
    {
        &self.generated
    }

    /// Takes the token the model chose next: the end-of-turn token stops
    /// decoding; any other is appended to the input and to the output.
    pub fn feed(&mut self, next: u32)
        requires
            old(self).wf(),
            !old(self).finished(),
        ensures
            final(self).wf(),
            final(self).prompt() == old(self).prompt(),
            final(self).eos() == old(self).eos(),
            next == old(self).eos() ==> final(self).stopped() && final(self).generated()
                == old(self).generated(),
            next != old(self).eos() ==> !final(self).stopped() && final(self).generated()
                == old(self).generated().push(next),
    {
        if next == self.eos {
            self.stopped = true;
        } else {
            self.tokens.push(next);
            self.generated.push(next);
            assert(self.tokens@ == self.prompt@ + self.generated@);
        }
    }
}

/// Decoding is bounded: a well-formed decoder never holds more than
/// `MAX_NEW_TOKENS` generated tokens, and none of them is the end-of-turn
/// token.
pub proof fn generation_bounded(g: &Generation)
    requires
        g.wf(),
    ensures
        g.generated().len() <= MAX_NEW_TOKENS,
        !g.generated().contains(g.eos()),
{
}


/// What can go wrong while loading the model or summarising. Each variant
/// carries the message of the underlying error.
#[derive(Debug, PartialEq, Eq)]
pub enum AiError {
    Candle(String),
    Tokenizer(String),
    Io(String),
    Api(String),
}

impl AiError {
    /// The text this error displays.
    pub open spec fn spec_message(&self) -> Seq<char> {
        match self {
            AiError::Candle(m) => "Candle error: "@ + m@,
            AiError::Tokenizer(m) => "Tokenizer error: "@ + m@,
            AiError::Io(m) => "IO error: "@ + m@,
            AiError::Api(m) => "API error: "@ + m@,
        }
    }

    /// The text this error displays.
    pub fn message(&self) -> (s: String)
        ensures
            s@ == self.spec_message(),
    {
        match self {
            AiError::Candle(m) => concat_str("Candle error: ", m.as_str()),
            AiError::Tokenizer(m) => concat_str("Tokenizer error: ", m.as_str()),
            AiError::Io(m) => concat_str("IO error: ", m.as_str()),
            AiError::Api(m) => concat_str("API error: ", m.as_str()),
        }
    }
}

} // verus!
