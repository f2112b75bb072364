//! The reader: from text to tokens, and from tokens to cells.

use crate::error::LispError;
use crate::exec::Failure;
use crate::lisp_cell::{cells_view, CellView, LispCell};
use crate::number::{number_value, Number};
use crate::program::{LispProgram, ProgramView};
use crate::runtime::{grows, Runtime, RuntimeView};
use crate::text::{chars_of, string_of};
use vstd::prelude::*;

verus! {

// ---------------------------------------------------------------------
// Characters and words
// ---------------------------------------------------------------------
/// Whether a character is white space: a space, a line feed, a tab or a
/// carriage return.
pub open spec fn is_space(c: char) -> bool {
    c == ' ' || c == '\n' || c == '\t' || c == '\r'
}

/// Whether a character ends a word.
pub open spec fn is_delimiter(c: char) -> bool {
    is_space(c) || c == '(' || c == ')'
}

/// Whether a word is a string literal: it begins and ends with a double
/// quote.
pub open spec fn is_string_literal(w: Seq<char>) -> bool {
    w.len() >= 2 && w[0] == '"' && w.last() == '"'
}

/// The cell that a word stands for: a number if it looks like one, a
/// string if it stands in double quotes, else an atom.
pub open spec fn classify(w: Seq<char>) -> CellView {
    match number_value(w) {
        Some(v) => CellView::Number(v),
        None => if is_string_literal(w) {
            CellView::Str(w.subrange(1, w.len() - 1))
        } else {
            CellView::Atom(w)
        },
    }
}

/// A text without the white space at its start.
pub open spec fn trim_start(s: Seq<char>) -> Seq<char>
    decreases s.len(),
{
    if s.len() > 0 && is_space(s[0]) {
        trim_start(s.drop_first())
    } else {
        s
    }
}

/// A text without the white space at its end.
pub open spec fn trim_end(s: Seq<char>) -> Seq<char>
    decreases s.len(),
{
    if s.len() > 0 && is_space(s.last()) {
        trim_end(s.drop_last())
    } else {
        s
    }
}

/// A text without the white space at its start and its end.
pub open spec fn trim(s: Seq<char>) -> Seq<char> {
    trim_end(trim_start(s))
}

// ---------------------------------------------------------------------
// Tokens
// ---------------------------------------------------------------------
/// A token of program text.
#[derive(Debug)]
pub enum Token {
    Open,
    Close,
    Quote,
    Word(LispCell),
}

/// The model of a `Token`.
pub enum TokenView {
    Open,
    Close,
    Quote,
    Word(CellView),
}

impl View for Token {
    type V = TokenView;

    open spec fn view(&self) -> TokenView {
        match self {
            Token::Open => TokenView::Open,
            Token::Close => TokenView::Close,
            Token::Quote => TokenView::Quote,
            Token::Word(c) => TokenView::Word(c@),
        }
    }
}

/// The models of a sequence of tokens.
pub open spec fn tokens_view(ts: Seq<Token>) -> Seq<TokenView> {
    ts.map_values(|t: Token| t@)
}

/// The token of a word that has ended, if there is a word.
pub open spec fn flush(word: Seq<char>) -> Seq<TokenView> {
    if word.len() == 0 {
        Seq::<TokenView>::empty()
    } else {
        seq![TokenView::Word(classify(word))]
    }
}

/// The tokens of `s`, read after the characters of `word`, which is the
/// word that `s` continues. White space and parentheses end a word; a
/// single quote is a token of its own where no word has begun, and part
/// of the word elsewhere.
pub open spec fn scan(s: Seq<char>, word: Seq<char>) -> Seq<TokenView>
    decreases s.len(),
{
    if s.len() == 0 {
        flush(word)
    } else {
        let c = s[0];
        let rest = s.drop_first();
        if is_space(c) {
            flush(word) + scan(rest, Seq::<char>::empty())
        } else if c == '(' {
            flush(word) + seq![TokenView::Open] + scan(rest, Seq::<char>::empty())
        } else if c == ')' {
            flush(word) + seq![TokenView::Close] + scan(rest, Seq::<char>::empty())
        } else if c == '\'' && word.len() == 0 {
            seq![TokenView::Quote] + scan(rest, Seq::<char>::empty())
        } else {
            scan(rest, word.push(c))
        }
    }
}

/// The tokens of a text.
pub open spec fn tokens(s: Seq<char>) -> Seq<TokenView> {
    scan(s, Seq::<char>::empty())
}

// ---------------------------------------------------------------------
// Reading tokens
// ---------------------------------------------------------------------
/// A list that is being read: the cells read so far, and the quotes that
/// wait for the next cell.
#[derive(Debug)]
pub struct Frame {
    pub items: Vec<LispCell>,
    pub quotes: usize,
}

/// The model of a `Frame`.
pub struct FrameView {
    pub items: Seq<CellView>,
    pub quotes: nat,
}

impl View for Frame {
    type V = FrameView;

    open spec fn view(&self) -> FrameView {
        FrameView { items: cells_view(self.items@), quotes: self.quotes as nat }
    }
}

/// The models of a sequence of frames.
pub open spec fn frames_view(fs: Seq<Frame>) -> Seq<FrameView> {
    fs.map_values(|f: Frame| f@)
}

/// The state of reading: the runtime's state and the lists that stand
/// open, the outermost first. The first frame is the top level of the
/// text.
pub struct ReaderView {
    pub st: RuntimeView,
    pub frames: Seq<FrameView>,
}

/// A cell behind `n` quotes.
pub open spec fn quoted_n(c: CellView, n: nat) -> CellView
    decreases n,
{
    if n == 0 {
        c
    } else {
        quoted_n(CellView::Quoted(Box::new(c)), (n - 1) as nat)
    }
}

/// The state in which reading begins.
pub open spec fn start(st: RuntimeView) -> ReaderView {
    ReaderView { st, frames: seq![FrameView { items: Seq::<CellView>::empty(), quotes: 0 }] }
}

/// The open lists after a cell has been read: it joins the innermost
/// one, behind the quotes that waited for it.
pub open spec fn push_frames(frames: Seq<FrameView>, c: CellView) -> Seq<FrameView> {
    let top = frames.last();
    frames.update(
        frames.len() - 1,
        FrameView { items: top.items.push(quoted_n(c, top.quotes)), quotes: 0 },
    )
}

/// The state after a cell has been read.
pub open spec fn push_expr(r: ReaderView, c: CellView) -> ReaderView {
    ReaderView { frames: push_frames(r.frames, c), ..r }
}

/// The state of reading that a runtime and its open lists stand for.
pub open spec fn reader(st: RuntimeView, frames: Seq<Frame>) -> ReaderView {
    ReaderView { st, frames: frames_view(frames) }
}

/// What `parse_spec` gives before the text is attached: the entry, and
/// the state that reading leaves.
pub open spec fn read_spec(st: RuntimeView, toks: Seq<TokenView>) -> Result<
    (RuntimeView, Option<CellView>),
    Failure,
> {
    match run(start(st), toks, 0) {
        Err(e) => Err(e),
        Ok(r) => finish(r),
    }
}

/// The state after the innermost open list has been closed: its cells
/// become a new list, which joins the list around it. Quotes that still
/// wait for a cell have nothing to quote.
pub open spec fn close_top(r: ReaderView) -> Result<ReaderView, Failure> {
    let top = r.frames.last();
    if top.quotes > 0 {
        Err((r.st, LispError::ArityMismatch))
    } else {
        Ok(
            push_expr(
                ReaderView { st: r.st.with_list(top.items), frames: r.frames.drop_last() },
                CellView::List(r.st.next_list()),
            ),
        )
    }
}

/// The state after one token.
pub open spec fn step(r: ReaderView, t: TokenView) -> Result<ReaderView, Failure> {
    match t {
        TokenView::Word(c) => Ok(push_expr(r, c)),
        TokenView::Quote => {
            let top = r.frames.last();
            Ok(
                ReaderView {
                    frames: r.frames.update(
                        r.frames.len() - 1,
                        FrameView { quotes: top.quotes + 1, ..top },
                    ),
                    ..r
                },
            )
        },
        TokenView::Open => Ok(
            ReaderView {
                frames: r.frames.push(FrameView { items: Seq::<CellView>::empty(), quotes: 0 }),
                ..r
            },
        ),
        TokenView::Close => if r.frames.len() <= 1 {
            Err((r.st, LispError::UnmatchedParen))
        } else {
            close_top(r)
        },
    }
}

/// The state after the tokens `toks[i..]`; the first error ends the
/// reading.
pub open spec fn run(r: ReaderView, toks: Seq<TokenView>, i: nat) -> Result<ReaderView, Failure>
    decreases toks.len() - i,
{
    if i >= toks.len() {
        Ok(r)
    } else {
        match step(r, toks[i as int]) {
            Err(e) => Err(e),
            Ok(next) => run(next, toks, i + 1),
        }
    }
}

/// What has been read when the text ends: the last cell of the top
/// level is the entry. A list that still stands open is an
/// `UnmatchedParen`; a quote that still waits for a cell is an
/// `ArityMismatch`.
pub open spec fn finish(r: ReaderView) -> Result<(RuntimeView, Option<CellView>), Failure> {
    let top = r.frames.last();
    if r.frames.len() != 1 {
        Err((r.st, LispError::UnmatchedParen))
    } else if top.quotes > 0 {
        Err((r.st, LispError::ArityMismatch))
    } else if top.items.len() == 0 {
        Ok((r.st, None))
    } else {
        Ok((r.st, Some(top.items.last())))
    }
}

/// The program that a text holds, and the state that reading it leaves.
/// The text is trimmed; each list of the text becomes a new list of the
/// runtime. A parenthesis without its partner is an `UnmatchedParen`; a
/// quote with nothing behind it is an `ArityMismatch`. A failure holds
/// the state at the point where reading stopped.
pub open spec fn parse_spec(st: RuntimeView, s: Seq<char>) -> Result<
    (RuntimeView, ProgramView),
    Failure,
> {
    let text = trim(s);
    match read_spec(st, tokens(text)) {
        Err(e) => Err(e),
        Ok((st1, entry)) => Ok((st1, ProgramView { text, entry })),
    }
}

// ---------------------------------------------------------------------
// The tokenizer
// ---------------------------------------------------------------------
fn space(c: char) -> (b: bool)
    ensures
        b == is_space(c),
{
    c == ' ' || c == '\n' || c == '\t' || c == '\r'
}

/// The token of a word.
fn word_token(word: &Vec<char>) -> (t: Token)
    requires
        word.len() > 0,
    ensures
        t@ == TokenView::Word(classify(word@)),
{
    match Number::parse(word) {
        Some(n) => Token::Word(LispCell::Number(n)),
        None => {
            let n: usize = word.len();
            if n >= 2 && word[0] == '"' && word[n - 1] == '"' {
                Token::Word(LispCell::Str(string_of(word, 1, n - 1)))
            } else {
                let name = string_of(word, 0, n);
                assert(word@.subrange(0, n as int) =~= word@);
                Token::Word(LispCell::Atom(name))
            }
        },
    }
}

/// The tokens of a text.
pub fn tokenize(chars: &Vec<char>) -> (r: Vec<Token>)
    ensures
        tokens_view(r@) == tokens(chars@),
{
    let mut out: Vec<Token> = Vec::new();
    let mut word: Vec<char> = Vec::new();
    let mut i: usize = 0;
    let n: usize = chars.len();
    assert(chars@.skip(0) =~= chars@);
    while i < n
        invariant
            i <= n,
            n == chars.len(),
            tokens(chars@) == tokens_view(out@) + scan(chars@.skip(i as int), word@),
        decreases n - i,
    {
        let c: char = chars[i];
        let ghost rest = chars@.skip(i as int).drop_first();
        assert(rest =~= chars@.skip(i as int + 1));
        if space(c) || c == '(' || c == ')' {
            if word.len() > 0 {
                out.push(word_token(&word));
                word = Vec::new();
            }
            if c == '(' {
                out.push(Token::Open);
            } else if c == ')' {
                out.push(Token::Close);
            }
            assert(word@ =~= Seq::<char>::empty());
        } else if c == '\'' && word.len() == 0 {
            out.push(Token::Quote);
            assert(word@ =~= Seq::<char>::empty());
        } else {
            word.push(c);
        }
        i += 1;
    }
    if word.len() > 0 {
        out.push(word_token(&word));
    }
    out
}

// ---------------------------------------------------------------------
// The reader
// ---------------------------------------------------------------------
/// A cell behind `n` quotes.
fn quote_cell(cell: LispCell, n: usize) -> (r: LispCell)
    ensures
        r@ == quoted_n(cell@, n as nat),
{
    let ghost first = cell@;
    let mut c: LispCell = cell;
    let mut k: usize = n;
    while k > 0
        invariant
            quoted_n(c@, k as nat) == quoted_n(first, n as nat),
        decreases k,
    {
        c = LispCell::Quoted(Box::new(c));
        k -= 1;
    }
    c
}

/// Whether no frame waits with more than `bound` quotes.
spec fn quotes_within(frames: Seq<Frame>, bound: int) -> bool {
    forall|f: int| 0 <= f < frames.len() ==> (#[trigger] frames[f]).quotes <= bound
}

fn push_cell(frames: &mut Vec<Frame>, cell: LispCell)
    requires
        old(frames).len() >= 1,
    ensures
        frames_view(final(frames)@) == push_frames(frames_view(old(frames)@), cell@),
        final(frames).len() == old(frames).len(),
        forall|bound: int|
            quotes_within(old(frames)@, bound) && bound >= 0 ==> quotes_within(
                final(frames)@,
                bound,
            ),
{
    let last: usize = frames.len() - 1;
    let q: usize = frames[last].quotes;
    let wrapped: LispCell = quote_cell(cell, q);
    let ghost before = frames@;
    frames[last].items.push(wrapped);
    frames[last].quotes = 0;
    assert(cells_view(frames@[last as int].items@) =~= cells_view(before[last as int].items@).push(
        wrapped@,
    ));
    assert forall|bound: int| quotes_within(before, bound) && bound >= 0 implies quotes_within(
        frames@,
        bound,
    ) by {
        assert(forall|f: int| 0 <= f < frames@.len() ==> (#[trigger] frames@[f]).quotes <= bound);
    }
}

fn close_frame(rt: &mut Runtime, frames: &mut Vec<Frame>) -> (r: Result<(), LispError>)
    requires
        old(frames).len() >= 2,
    ensures
        match close_top(reader(old(rt)@, old(frames)@)) {
            Ok(next) => r is Ok && reader(final(rt)@, final(frames)@) == next && final(frames).len()
                == old(frames).len() - 1,
            Err(e) => r == Err::<(), LispError>(e.1) && final(rt)@ == e.0,
        },
        grows(old(rt)@, final(rt)@),
        forall|bound: int|
            quotes_within(old(frames)@, bound) && bound >= 0 ==> quotes_within(
                final(frames)@,
                bound,
            ),
{
    let ghost before = frames@;
    let top: Frame = match frames.pop() {
        Some(f) => f,
        None => {
            return Ok(());
        },
    };
    assert(frames_view(frames@) =~= frames_view(before).drop_last());
    if top.quotes > 0 {
        return Err(LispError::ArityMismatch);
    }
    let cell: LispCell = LispCell::new_list(rt, top.items);
    push_cell(frames, cell);
    Ok(())
}

/// Reads tokens into cells: the entry that they hold, if any.
pub fn read(rt: &mut Runtime, toks: &Vec<Token>) -> (r: Result<Option<LispCell>, LispError>)
    ensures
        match read_spec(old(rt)@, tokens_view(toks@)) {
            Ok((st1, entry)) => r is Ok && final(rt)@ == st1 && crate::env::cell_option(r->Ok_0)
                == entry,
            Err((st1, e)) => r is Err && final(rt)@ == st1 && r->Err_0 == e,
        },
        grows(old(rt)@, final(rt)@),
{
    let ghost tv = tokens_view(toks@);
    let mut frames: Vec<Frame> = Vec::new();
    frames.push(Frame { items: Vec::new(), quotes: 0 });
    assert(frames_view(frames@) =~= start(rt@).frames) by {
        assert(cells_view(frames@[0].items@) =~= Seq::<CellView>::empty());
    }
    let n: usize = toks.len();
    let mut i: usize = 0;
    while i < n
        invariant
            i <= n,
            n == toks.len(),
            tv == tokens_view(toks@),
            frames.len() >= 1,
            quotes_within(frames@, i as int),
            grows(old(rt)@, rt@),
            run(start(old(rt)@), tv, 0) == run(reader(rt@, frames@), tv, i as nat),
        decreases n - i,
    {
        let ghost current = reader(rt@, frames@);
        match &toks[i] {
            Token::Word(c) => {
                push_cell(&mut frames, c.clone());
            },
            Token::Quote => {
                let last: usize = frames.len() - 1;
                frames[last].quotes = frames[last].quotes + 1;
                assert(frames_view(frames@) =~= step(current, tv[i as int])->Ok_0.frames);
                assert(quotes_within(frames@, i as int + 1));
            },
            Token::Open => {
                frames.push(Frame { items: Vec::new(), quotes: 0 });
                assert(cells_view(frames@[frames.len() - 1].items@) =~= Seq::<CellView>::empty());
                assert(frames_view(frames@) =~= step(current, tv[i as int])->Ok_0.frames);
            },
            Token::Close => {
                if frames.len() <= 1 {
                    return Err(LispError::UnmatchedParen);
                }
                match close_frame(rt, &mut frames) {
                    Err(e) => {
                        return Err(e);
                    },
                    Ok(_) => {},
                }
            },
        }
        i += 1;
    }
    if frames.len() != 1 {
        return Err(LispError::UnmatchedParen);
    }
    let top: &Frame = &frames[0];
    if top.quotes > 0 {
        Err(LispError::ArityMismatch)
    } else if top.items.len() == 0 {
        Ok(None)
    } else {
        Ok(Some(top.items[top.items.len() - 1].clone()))
    }
}

/// The characters of a text without the white space at its start and its
/// end.
pub fn trim_chars(chars: &Vec<char>) -> (r: Vec<char>)
    ensures
        r@ == trim(chars@),
{
    let n: usize = chars.len();
    let mut a: usize = 0;
    assert(chars@.skip(0) =~= chars@);
    while a < n && space(chars[a])
        invariant
            a <= n,
            n == chars.len(),
            trim_start(chars@) == trim_start(chars@.skip(a as int)),
        decreases n - a,
    {
        assert(chars@.skip(a as int).drop_first() =~= chars@.skip(a as int + 1));
        a += 1;
    }
    let mut b: usize = n;
    while b > a && space(chars[b - 1])
        invariant
            a <= b <= n,
            n == chars.len(),
            trim(chars@) == trim_end(chars@.subrange(a as int, b as int)),
        decreases b,
    {
        assert(chars@.subrange(a as int, b as int).drop_last() =~= chars@.subrange(
            a as int,
            b as int - 1,
        ));
        b -= 1;
    }
    let mut out: Vec<char> = Vec::new();
    let mut i: usize = a;
    while i < b
        invariant
            a <= i <= b <= n,
            n == chars.len(),
            out@ == chars@.subrange(a as int, i as int),
        decreases b - i,
    {
        out.push(chars[i]);
        i += 1;
    }
    out
}

/// Reads a program from its text. The lists of the text become lists of
/// the runtime.
pub fn parse(program: String, rt: &mut Runtime) -> (r: Result<LispProgram, LispError>)
    ensures
        match parse_spec(old(rt)@, program@) {
            Ok((st1, pv)) => r is Ok && final(rt)@ == st1 && r->Ok_0@ == pv,
            Err((st1, e)) => r is Err && final(rt)@ == st1 && r->Err_0 == e,
        },
        grows(old(rt)@, final(rt)@),
{
    let chars: Vec<char> = chars_of(program.as_str());
    let trimmed: Vec<char> = trim_chars(&chars);
    let toks: Vec<Token> = tokenize(&trimmed);
    match read(rt, &toks) {
        Err(e) => Err(e),
        Ok(entry) => {
            let text: String = string_of(&trimmed, 0, trimmed.len());
            assert(trimmed@.subrange(0, trimmed.len() as int) =~= trimmed@);
            Ok(LispProgram { text, entry })
        },
    }
}

} // verus!
