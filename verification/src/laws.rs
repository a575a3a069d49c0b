//! What holds of every scan.

use vstd::prelude::*;
use crate::chars::{
    is_alpha_char, is_numeral, lemma_newlines_concat, lemma_newlines_none, lemma_run_end, newlines,
    run_end, CharClass,
};
use crate::diagnostics::ReportView;
use crate::model::{word_kind, ScannerView};
use crate::scanner::Scanner;
use crate::token::{LiteralView, TokenType, TokenView};

verus! {

/// The end-of-input token on `line`.
pub open spec fn end_of_input(line: int) -> TokenView {
    TokenView { kind: TokenType::EOF, lexeme: Seq::empty(), literal: LiteralView::Nil, line }
}

/// A blank: a space, a carriage return, a tab or a line feed.
pub open spec fn is_blank_char(c: char) -> bool {
    c == ' ' || c == '\r' || c == '\t' || c == '\n'
}

/// From `from` on, `text` holds nothing but blanks and comments. A comment
/// opens with two slashes and runs up to the next line feed or to the end of
/// the text; `in_comment` says that `from` lies inside one.
pub open spec fn only_blanks_and_comments(text: Seq<char>, from: int, in_comment: bool) -> bool
    decreases text.len() - from,
{
    if from < 0 || from >= text.len() {
        true
    } else if in_comment {
        only_blanks_and_comments(text, from + 1, text[from] != '\n')
    } else if is_blank_char(text[from]) {
        only_blanks_and_comments(text, from + 1, false)
    } else if text[from] == '/' && from + 1 < text.len() && text[from + 1] == '/' {
        only_blanks_and_comments(text, from + 2, true)
    } else {
        false
    }
}

/// `token` is the text at `offset`, and its line is one more than the number
/// of line feeds before `offset`.
pub open spec fn token_at(text: Seq<char>, token: TokenView, offset: int) -> bool {
    &&& 0 <= offset
    &&& offset + token.lexeme.len() <= text.len()
    &&& token.lexeme == text.subrange(offset, offset + token.lexeme.len())
    &&& token.line == 1 + newlines(text.take(offset))
}

/// The literal of `token` is the one that goes with its kind: a string
/// carries the text between its quotes, a number carries its lexeme, which is
/// a decimal numeral, `true` and `false` carry their boolean, and every
/// other token carries nothing.
pub open spec fn literal_fits(token: TokenView) -> bool {
    match token.kind {
        TokenType::String => {
            &&& token.lexeme.len() >= 2
            &&& token.lexeme.first() == '"'
            &&& token.lexeme.last() == '"'
            &&& token.literal == LiteralView::String(
                token.lexeme.subrange(1, token.lexeme.len() - 1),
            )
        },
        TokenType::Number => {
            &&& token.literal == LiteralView::Number(token.lexeme)
            &&& is_numeral(token.lexeme)
        },
        TokenType::True => token.literal == LiteralView::Boolean(true),
        TokenType::False => token.literal == LiteralView::Boolean(false),
        _ => token.literal == LiteralView::Nil,
    }
}

/// Where the tokens begin that the rest of a scan emits, in order: the
/// position of the cursor before each lexeme that becomes a token.
pub open spec fn offsets_from(state: ScannerView) -> Seq<int>
    decreases state.source.len() - state.current,
    via offsets_from_decreases
{
    if state.wf() && !state.at_end() {
        let next = state.begin().scan_token();
        if next.tokens.len() > state.tokens.len() {
            seq![state.current] + offsets_from(next)
        } else {
            offsets_from(next)
        }
    } else {
        Seq::empty()
    }
}

#[via_fn]
proof fn offsets_from_decreases(state: ScannerView) {
    if state.wf() && !state.at_end() {
        state.begin().lemma_scan_token();
    }
}

/// Where the tokens of a whole scan of `text` begin, the end-of-input token
/// at the end of the text.
pub open spec fn token_offsets(text: Seq<char>) -> Seq<int> {
    offsets_from(ScannerView::fresh(text)).push(text.len() as int)
}

/// The token that a step from `before` to `after` emitted is the text that
/// the step consumed, on the line where the step began; it is no
/// end-of-input token, and its literal goes with its kind.
spec fn emits_one(before: ScannerView, after: ScannerView) -> bool {
    let token = after.tokens.last();
    &&& after.tokens == before.tokens.push(token)
    &&& token.lexeme == before.source.subrange(before.current, after.current)
    &&& token.line == before.line
    &&& token.kind != TokenType::EOF
    &&& literal_fits(token)
}

/// What a step from `before` to `after` does: it counts the line feeds that
/// it consumes, emits at most one token, and makes at most one report, at
/// the line it ends on.
spec fn step_effect(before: ScannerView, after: ScannerView) -> bool {
    &&& after.line == before.line + newlines(
        before.source.subrange(before.current, after.current),
    )
    &&& after.tokens == before.tokens || emits_one(before, after)
    &&& after.reports == before.reports || (after.tokens == before.tokens && after.reports
        == before.reports.push(after.reports.last()) && after.reports.last().line == after.line)
}

/// A stretch of text without line feeds counts none.
proof fn lemma_no_newlines(text: Seq<char>, from: int, to: int)
    requires
        0 <= from <= to <= text.len(),
        forall|i: int| from <= i < to ==> #[trigger] text[i] != '\n',
    ensures
        newlines(text.subrange(from, to)) == 0,
{
    lemma_newlines_none(text.subrange(from, to));
}

/// Line feeds are counted stretch by stretch.
proof fn lemma_newlines_split(text: Seq<char>, from: int, mid: int, to: int)
    requires
        0 <= from <= mid <= to <= text.len(),
    ensures
        newlines(text.subrange(from, to)) == newlines(text.subrange(from, mid)) + newlines(
            text.subrange(mid, to),
        ),
{
    assert(text.subrange(from, to) =~= text.subrange(from, mid) + text.subrange(mid, to));
    lemma_newlines_concat(text.subrange(from, mid), text.subrange(mid, to));
}

/// No word makes an end-of-input token, a number or a string.
proof fn lemma_word_kind(word: Seq<char>)
    ensures
        word_kind(word) != TokenType::EOF,
        word_kind(word) != TokenType::Number,
        word_kind(word) != TokenType::String,
{
}

proof fn lemma_string_effect(before: ScannerView)
    requires
        before.wf(),
        before.start == before.current,
        !before.at_end(),
        before.source[before.current] == '"',
    ensures
        step_effect(before, before.advance().string()),
{
    let text = before.source;
    let read = before.advance();
    let after = read.string();
    let close = run_end(text, read.current, CharClass::StringBody);
    lemma_run_end(text, read.current, CharClass::StringBody);
    lemma_no_newlines(text, before.current, read.current);
    lemma_newlines_split(text, before.current, read.current, close);
    if close < text.len() {
        lemma_no_newlines(text, close, close + 1);
        lemma_newlines_split(text, before.current, close, close + 1);
        let token = after.tokens.last();
        assert(token.lexeme.subrange(1, token.lexeme.len() - 1) =~= text.subrange(
            read.start + 1,
            close,
        ));
        assert(emits_one(before, after));
    } else {
        assert(after.tokens == before.tokens);
    }
}

proof fn lemma_number_effect(before: ScannerView)
    requires
        before.wf(),
        before.start == before.current,
        !before.at_end(),
        CharClass::Digit.holds(before.source[before.current]),
    ensures
        step_effect(before, before.advance().number()),
{
    let text = before.source;
    let read = before.advance();
    let after = read.number();
    let whole = run_end(text, read.current, CharClass::Digit);
    lemma_run_end(text, read.current, CharClass::Digit);
    if whole + 1 <= text.len() {
        lemma_run_end(text, whole + 1, CharClass::Digit);
    }
    assert forall|i: int| before.current <= i < after.current implies #[trigger] text[i]
        != '\n' by {
        if i < whole {
            assert(CharClass::Digit.holds(text[i]));
        } else if i > whole {
            assert(CharClass::Digit.holds(text[i]));
        }
    }
    lemma_no_newlines(text, before.current, after.current);
    assert(read.lexeme() =~= seq![text[before.current]]);
    read.lemma_number_is_numeral();
    assert(emits_one(before, after));
}

proof fn lemma_identifier_effect(before: ScannerView)
    requires
        before.wf(),
        before.start == before.current,
        !before.at_end(),
        before.source[before.current] != '\n',
    ensures
        step_effect(before, before.advance().identifier()),
{
    let text = before.source;
    let read = before.advance();
    let after = read.identifier();
    lemma_run_end(text, read.current, CharClass::Word);
    assert forall|i: int| before.current <= i < after.current implies #[trigger] text[i]
        != '\n' by {
        if i > before.current {
            assert(CharClass::Word.holds(text[i]));
        }
    }
    lemma_no_newlines(text, before.current, after.current);
    lemma_word_kind(after.lexeme());
    assert(emits_one(before, after));
}

proof fn lemma_comment_effect(before: ScannerView)
    requires
        before.wf(),
        before.start == before.current,
        !before.at_end(),
        before.source[before.current] == '/',
        before.advance().next_is('/'),
    ensures
        step_effect(before, before.scan_token()),
{
    let text = before.source;
    let after = before.scan_token();
    lemma_run_end(text, before.current + 2, CharClass::CommentBody);
    assert forall|i: int| before.current <= i < after.current implies #[trigger] text[i]
        != '\n' by {
        if i >= before.current + 2 {
            assert(CharClass::CommentBody.holds(text[i]));
        }
    }
    lemma_no_newlines(text, before.current, after.current);
}

/// Every step from the start of a lexeme has the effect described above.
proof fn lemma_step_effect(before: ScannerView)
    requires
        before.wf(),
        before.start == before.current,
        !before.at_end(),
    ensures
        step_effect(before, before.scan_token()),
{
    let text = before.source;
    let c = text[before.current];
    let read = before.advance();
    let after = before.scan_token();
    if c == '"' {
        lemma_string_effect(before);
    } else if c == '/' && read.next_is('/') {
        lemma_comment_effect(before);
    } else if c == '\n' {
        assert(text.subrange(before.current, after.current) =~= seq!['\n']);
        assert(seq!['\n'].drop_last() =~= Seq::<char>::empty());
        assert(newlines(text.subrange(before.current, after.current)) == 1) by {
            reveal_with_fuel(newlines, 2);
        }
    } else if c == '!' || c == '=' || c == '<' || c == '>' {
        lemma_no_newlines(text, before.current, after.current);
        assert(emits_one(before, after));
    } else if c == '(' || c == ')' || c == '{' || c == '}' || c == ',' || c == '.' || c == '-' || c
        == '+' || c == ';' || c == '*' || c == '/' {
        lemma_no_newlines(text, before.current, after.current);
        assert(emits_one(before, after));
    } else if c == ' ' || c == '\r' || c == '\t' {
        lemma_no_newlines(text, before.current, after.current);
    } else if CharClass::Digit.holds(c) {
        lemma_number_effect(before);
    } else if is_alpha_char(c) {
        lemma_identifier_effect(before);
    } else {
        lemma_no_newlines(text, before.current, after.current);
        assert(after.tokens == before.tokens);
    }
}

/// The token is where a scan says it is, and is one that a scan may emit.
spec fn sound_token(text: Seq<char>, token: TokenView, offset: int) -> bool {
    &&& token_at(text, token, offset)
    &&& token.kind != TokenType::EOF
    &&& literal_fits(token)
}

/// The rest of a scan, from a state whose line counter agrees with its
/// cursor: the tokens so far stay, and each further token is sound at its
/// offset; the offsets grow, lexeme after lexeme; the line counter ends at
/// one more than the number of line feeds in the text.
proof fn lemma_run_effect(state: ScannerView)
    requires
        state.wf(),
        state.line == 1 + newlines(state.source.take(state.current)),
    ensures
        ({
            let done = state.run();
            let offsets = offsets_from(state);
            let n = state.tokens.len() as int;
            &&& done.tokens.len() == n + offsets.len()
            &&& done.tokens.take(n) == state.tokens
            &&& done.line == 1 + newlines(state.source)
            &&& forall|i: int|
                0 <= i < offsets.len() ==> state.current <= #[trigger] offsets[i] && sound_token(
                    state.source,
                    done.tokens[n + i],
                    offsets[i],
                )
            &&& forall|i: int, j: int|
                0 <= i < j < offsets.len() ==> #[trigger] offsets[i] + done.tokens[n + i].lexeme.len()
                    <= #[trigger] offsets[j]
        }),
    decreases state.source.len() - state.current,
{
    let text = state.source;
    let done = state.run();
    let offsets = offsets_from(state);
    let n = state.tokens.len() as int;
    if state.at_end() {
        assert(text.take(state.current) =~= text);
        assert(done.tokens.take(n) =~= state.tokens);
    } else {
        let before = state.begin();
        let next = before.scan_token();
        before.lemma_scan_token();
        lemma_step_effect(before);
        assert(text.take(next.current) =~= text.take(state.current) + text.subrange(
            state.current,
            next.current,
        ));
        lemma_newlines_concat(
            text.take(state.current),
            text.subrange(state.current, next.current),
        );
        lemma_run_effect(next);
        let rest = offsets_from(next);
        let m = next.tokens.len() as int;
        assert(done == next.run());
        if next.tokens.len() > state.tokens.len() {
            assert(emits_one(before, next));
            assert(m == n + 1);
            assert(offsets =~= seq![state.current] + rest);
            assert(done.tokens.take(n) =~= done.tokens.take(m).take(n));
            assert(done.tokens.take(n) =~= state.tokens);
            assert(done.tokens[n] == done.tokens.take(m)[n]);
            assert(done.tokens[n] == next.tokens.last());
            assert(sound_token(text, done.tokens[n], state.current));
            assert forall|i: int| 0 <= i < offsets.len() implies state.current
                <= #[trigger] offsets[i] && sound_token(text, done.tokens[n + i], offsets[i]) by {
                if i > 0 {
                    assert(offsets[i] == rest[i - 1]);
                    assert(done.tokens[n + i] == done.tokens[m + (i - 1)]);
                }
            }
            assert forall|i: int, j: int| 0 <= i < j < offsets.len() implies #[trigger] offsets[i]
                + done.tokens[n + i].lexeme.len() <= #[trigger] offsets[j] by {
                assert(offsets[j] == rest[j - 1]);
                if i > 0 {
                    assert(offsets[i] == rest[i - 1]);
                    assert(done.tokens[n + i] == done.tokens[m + (i - 1)]);
                }
            }
        } else {
            assert(next.tokens == state.tokens);
            assert(offsets =~= rest);
        }
    }
}

/// From a comment on, the text holds only blanks and comments exactly when
/// it does so from the end of the comment's line on.
proof fn lemma_comment_is_blank(text: Seq<char>, from: int)
    requires
        0 <= from <= text.len(),
        only_blanks_and_comments(text, from, true),
    ensures
        only_blanks_and_comments(text, run_end(text, from, CharClass::CommentBody), false),
    decreases text.len() - from,
{
    if from < text.len() && text[from] != '\n' {
        lemma_comment_is_blank(text, from + 1);
    }
}

/// Over blanks and comments a scan emits nothing and reports nothing.
proof fn lemma_run_over_blanks(state: ScannerView)
    requires
        state.wf(),
        only_blanks_and_comments(state.source, state.current, false),
    ensures
        state.run().tokens == state.tokens,
        state.run().reports == state.reports,
    decreases state.source.len() - state.current,
{
    if !state.at_end() {
        let text = state.source;
        let before = state.begin();
        let next = before.scan_token();
        before.lemma_scan_token();
        if text[state.current] == '/' {
            lemma_comment_is_blank(text, state.current + 2);
        }
        lemma_run_over_blanks(next);
    }
}

/// A text that holds only blanks and comments scans to the end-of-input
/// token alone, and nothing is reported.
pub proof fn lemma_blank_text_yields_end_of_input_alone(source: Seq<char>)
    requires
        source.len() < i32::MAX,
        only_blanks_and_comments(source, 0, false),
    ensures
        ScannerView::fresh(source).scan_tokens().tokens == seq![
            end_of_input(1int + newlines(source)),
        ],
        ScannerView::fresh(source).scan_tokens().reports == Seq::<ReportView>::empty(),
{
    let state = ScannerView::fresh(source);
    assert(source.take(0) =~= Seq::<char>::empty());
    lemma_run_over_blanks(state);
    lemma_run_effect(state);
    assert(state.scan_tokens().tokens =~= seq![end_of_input(1int + newlines(source))]);
}

/// Line tracking: every token of a scan lies in the text at its offset, and
/// its line is one more than the number of line feeds before its first
/// character. The offsets grow with the tokens, which do not overlap. The
/// end-of-input token lies at the end of the text, so its line is one more
/// than the number of line feeds in the whole text.
pub proof fn lemma_tokens_carry_their_lines(source: Seq<char>)
    requires
        source.len() < i32::MAX,
    ensures
        ({
            let tokens = ScannerView::fresh(source).scan_tokens().tokens;
            let offsets = token_offsets(source);
            &&& offsets.len() == tokens.len()
            &&& forall|i: int|
                0 <= i < tokens.len() ==> token_at(source, #[trigger] tokens[i], offsets[i])
            &&& forall|i: int, j: int|
                0 <= i < j < tokens.len() ==> #[trigger] offsets[i] + tokens[i].lexeme.len()
                    <= #[trigger] offsets[j]
            &&& tokens.last().line == 1 + newlines(source)
        }),
{
    let state = ScannerView::fresh(source);
    let tokens = state.scan_tokens().tokens;
    let offsets = token_offsets(source);
    assert(source.take(0) =~= Seq::<char>::empty());
    assert(source.take(source.len() as int) =~= source);
    lemma_run_effect(state);
    state.lemma_run();
    let inner = offsets_from(state);
    assert forall|i: int| 0 <= i < tokens.len() implies token_at(
        source,
        #[trigger] tokens[i],
        offsets[i],
    ) by {
        if i < inner.len() {
            assert(sound_token(source, state.run().tokens[0 + i], inner[i]));
        } else {
            assert(source.subrange(source.len() as int, source.len() as int) =~= Seq::<
                char,
            >::empty());
        }
    }
    assert forall|i: int, j: int| 0 <= i < j < tokens.len() implies #[trigger] offsets[i]
        + tokens[i].lexeme.len() <= #[trigger] offsets[j] by {
        assert(sound_token(source, state.run().tokens[0 + i], inner[i]));
        if j < inner.len() {
            assert(inner[i] + state.run().tokens[0 + i].lexeme.len() <= inner[j]);
        }
    }
}

/// Every scan ends in an end-of-input token, and holds no other.
pub proof fn lemma_one_end_of_input(source: Seq<char>)
    requires
        source.len() < i32::MAX,
    ensures
        ({
            let tokens = ScannerView::fresh(source).scan_tokens().tokens;
            &&& tokens.len() >= 1
            &&& tokens.last().kind == TokenType::EOF
            &&& forall|i: int|
                0 <= i < tokens.len() - 1 ==> (#[trigger] tokens[i]).kind != TokenType::EOF
        }),
{
    let state = ScannerView::fresh(source);
    let tokens = state.scan_tokens().tokens;
    assert(source.take(0) =~= Seq::<char>::empty());
    lemma_run_effect(state);
    let inner = offsets_from(state);
    assert forall|i: int| 0 <= i < tokens.len() - 1 implies (#[trigger] tokens[i]).kind
        != TokenType::EOF by {
        assert(sound_token(source, state.run().tokens[0 + i], inner[i]));
    }
}

/// Every token of a scan carries the literal that goes with its kind. In
/// particular the lexeme of a number is a decimal numeral, so it can always
/// be read as a number.
pub proof fn lemma_literals_fit_kinds(source: Seq<char>)
    requires
        source.len() < i32::MAX,
    ensures
        ({
            let tokens = ScannerView::fresh(source).scan_tokens().tokens;
            forall|i: int| 0 <= i < tokens.len() ==> literal_fits(#[trigger] tokens[i])
        }),
{
    let state = ScannerView::fresh(source);
    let tokens = state.scan_tokens().tokens;
    assert(source.take(0) =~= Seq::<char>::empty());
    lemma_run_effect(state);
    let inner = offsets_from(state);
    assert forall|i: int| 0 <= i < tokens.len() implies literal_fits(#[trigger] tokens[i]) by {
        if i < inner.len() {
            assert(sound_token(source, state.run().tokens[0 + i], inner[i]));
        }
    }
}

/// A scan reads the whole text, whatever it holds.
pub proof fn lemma_scan_reads_everything(source: Seq<char>)
    requires
        source.len() < i32::MAX,
    ensures
        ScannerView::fresh(source).scan_tokens().current == source.len(),
        ScannerView::fresh(source).scan_tokens().source == source,
{
    ScannerView::fresh(source).lemma_run();
}

/// Two new scanners over the same text end their scans with the same tokens
/// and the same reports.
pub proof fn lemma_same_text_same_scan(
    first: Scanner,
    first_done: Scanner,
    second: Scanner,
    second_done: Scanner,
)
    requires
        first@ == ScannerView::fresh(first@.source),
        second@ == ScannerView::fresh(second@.source),
        first@.source == second@.source,
        first_done@ == first@.scan_tokens(),
        second_done@ == second@.scan_tokens(),
    ensures
        first_done@.tokens == second_done@.tokens,
        first_done@.reports == second_done@.reports,
{
}

} // verus!
