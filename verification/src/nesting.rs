//! How deep the elements of a document nest, found in one pass over its
//! bytes. The pass splits the bytes into text and markup as an XML tokenizer
//! does that is handed the whole document at once, and keeps count of the
//! elements that are open.
//!
//! The bytes that the pass looks for: `<` 3c, `>` 3e, `/` 2f, `?` 3f, `!` 21,
//! `-` 2d, `[` 5b, `]` 5d, `'` 27, `"` 22, and the letters of `D`, `d`,
//! `ENTITY`, `ATTLIST` and `NOTATION`.

use vstd::prelude::*;

verus! {

/// What the pass is in the middle of.
#[derive(Clone, Copy, Debug, PartialEq, Eq)]
pub enum Mode {
    /// Between markup.
    Text,
    /// Just behind a `<`.
    Opened,
    /// In a start tag, which ends at the first `>` outside quotes.
    StartTag,
    /// In an end tag, which ends at the first `>` outside quotes.
    EndTag,
    /// In a processing instruction, which ends at the first `?>`.
    Instruction,
    /// Just behind `<!`.
    Bang,
    /// In a comment, which ends at the first `-->` that stands at least six
    /// bytes behind its `<`.
    Comment,
    /// In a CDATA section, which ends at the first `]]>`.
    CData,
    /// In a document type declaration, before its internal subset if it has
    /// one. It ends at the first `>` outside quotes; a `[` outside quotes
    /// opens the internal subset.
    Doctype,
    /// In the internal subset, between its declarations. A `]` ends it.
    Subset,
    /// Behind the internal subset: the first `>` ends the declaration.
    AfterSubset,
    /// In the internal subset, just behind a `<`.
    SubsetOpened,
    /// In the internal subset, just behind `<!`.
    SubsetBang,
    /// In the internal subset, in markup that so far reads like the
    /// beginning of a keyword.
    SubsetKeyword,
    /// In a processing instruction of the internal subset, which ends at the
    /// first `?>` behind its `<?`.
    SubsetInstruction,
    /// In a comment of the internal subset, which ends at the first `-->`
    /// behind its `<!--`.
    SubsetComment,
    /// In an entity, attribute list or notation declaration, which ends at
    /// the first `>` outside quotes.
    SubsetQuoted,
    /// In other markup of the internal subset, which ends at the first `>`.
    SubsetDecl,
    /// Behind markup that no tokenizer reads on from: `<!` followed by
    /// anything but `[`, `-`, `D` or `d`.
    Stopped,
    /// Behind an element that would be open beyond the limit.
    TooDeep,
}

/// The beginnings by which markup of the internal subset is told apart:
/// `<!--`, `<!ENTITY`, `<!ATTLIST` and `<!NOTATION`.
#[derive(Clone, Copy, Debug, PartialEq, Eq)]
pub enum Keyword {
    Comment,
    Entity,
    Attlist,
    Notation,
}

/// Whether the pass is inside a quoted attribute value or literal.
#[derive(Clone, Copy, Debug, PartialEq, Eq)]
pub enum Quote {
    Outside,
    Single,
    Double,
}

/// The state of the pass between two bytes.
#[derive(Clone, Copy, Debug, PartialEq, Eq)]
pub struct Scan {
    pub mode: Mode,
    /// How many elements are open.
    pub depth: usize,
    pub quote: Quote,
    /// The keyword that the markup at hand may begin with.
    pub keyword: Keyword,
    /// How many bytes of the closing sequence stand directly before: `-` in
    /// a comment and `]` in a CDATA section, counted up to two; `?` in a
    /// processing instruction, counted up to one. In the beginning of a
    /// keyword, how many of its bytes were read.
    pub run: u8,
    /// In a comment, how far the next byte stands behind the `<`, counted up
    /// to six.
    pub offset: u8,
    /// In a start tag, whether the byte before was `/`.
    pub after_slash: bool,
}

/// The state before the first byte.
pub open spec fn scan_start() -> Scan {
    in_mode(Mode::Text, 0)
}

/// The quote state behind `byte`: a quote opens outside quotes and is
/// closed by the same quote only.
pub open spec fn quote_after(quote: Quote, byte: u8) -> Quote {
    match quote {
        Quote::Outside => if byte == 0x27 {
            Quote::Single
        } else if byte == 0x22 {
            Quote::Double
        } else {
            Quote::Outside
        },
        Quote::Single => if byte == 0x27 {
            Quote::Outside
        } else {
            Quote::Single
        },
        Quote::Double => if byte == 0x22 {
            Quote::Outside
        } else {
            Quote::Double
        },
    }
}

/// The state in `mode` with nothing counted yet, `depth` elements open.
pub open spec fn in_mode(mode: Mode, depth: usize) -> Scan {
    Scan {
        mode,
        depth,
        quote: Quote::Outside,
        keyword: Keyword::Comment,
        run: 0,
        offset: 0,
        after_slash: false,
    }
}

/// How many bytes a keyword has behind the `!`.
pub open spec fn keyword_len(keyword: Keyword) -> u8 {
    match keyword {
        Keyword::Comment => 2,
        Keyword::Entity => 6,
        Keyword::Attlist => 7,
        Keyword::Notation => 8,
    }
}

/// The byte of a keyword at place `at` behind the `!`: of `--`, `ENTITY`,
/// `ATTLIST` and `NOTATION`.
pub open spec fn keyword_byte(keyword: Keyword, at: u8) -> u8 {
    match keyword {
        Keyword::Comment => 0x2d,
        Keyword::Entity => if at == 0 {
            0x45
        } else if at == 1 {
            0x4e
        } else if at == 2 {
            0x54
        } else if at == 3 {
            0x49
        } else if at == 4 {
            0x54
        } else {
            0x59
        },
        Keyword::Attlist => if at == 0 {
            0x41
        } else if at == 1 {
            0x54
        } else if at == 2 {
            0x54
        } else if at == 3 {
            0x4c
        } else if at == 4 {
            0x49
        } else if at == 5 {
            0x53
        } else {
            0x54
        },
        Keyword::Notation => if at == 0 {
            0x4e
        } else if at == 1 {
            0x4f
        } else if at == 2 {
            0x54
        } else if at == 3 {
            0x41
        } else if at == 4 {
            0x54
        } else if at == 5 {
            0x49
        } else if at == 6 {
            0x4f
        } else {
            0x4e
        },
    }
}

/// The keyword that markup of the internal subset may begin with, given the
/// byte behind its `<!`.
pub open spec fn keyword_from(byte: u8) -> Option<Keyword> {
    if byte == 0x2d {
        Some(Keyword::Comment)
    } else if byte == 0x45 {
        Some(Keyword::Entity)
    } else if byte == 0x41 {
        Some(Keyword::Attlist)
    } else if byte == 0x4e {
        Some(Keyword::Notation)
    } else {
        None
    }
}

/// The state behind a byte of markup of the internal subset that begins
/// with no keyword: such markup ends at the first `>`.
pub open spec fn in_other_markup(depth: usize, byte: u8) -> Scan {
    if byte == 0x3e {
        in_mode(Mode::Subset, depth)
    } else {
        in_mode(Mode::SubsetDecl, depth)
    }
}

/// The state behind the last byte of a keyword: in a comment, or in a
/// declaration that may hold quotes.
pub open spec fn after_keyword(depth: usize, keyword: Keyword) -> Scan {
    match keyword {
        Keyword::Comment => in_mode(Mode::SubsetComment, depth),
        _ => in_mode(Mode::SubsetQuoted, depth),
    }
}

/// The state behind a start tag: one more element is open, or only was for a
/// moment where the tag closes itself. Past the limit the pass ends.
pub open spec fn after_start_tag(depth: usize, closes_itself: bool, limit: nat) -> Scan {
    if depth >= limit {
        in_mode(Mode::TooDeep, depth)
    } else if closes_itself {
        in_mode(Mode::Text, depth)
    } else {
        in_mode(Mode::Text, (depth + 1) as usize)
    }
}

/// The state behind an end tag: one element fewer is open, if one was.
pub open spec fn after_end_tag(depth: usize) -> Scan {
    in_mode(
        Mode::Text,
        if depth > 0 {
            (depth - 1) as usize
        } else {
            0
        },
    )
}

/// The state behind `byte`.
pub open spec fn scan_step(state: Scan, byte: u8, limit: nat) -> Scan {
    match state.mode {
        Mode::Text => if byte == 0x3c {
            in_mode(Mode::Opened, state.depth)
        } else {
            state
        },
        Mode::Opened => if byte == 0x2f {
            in_mode(Mode::EndTag, state.depth)
        } else if byte == 0x3f {
            Scan { run: 1, ..in_mode(Mode::Instruction, state.depth) }
        } else if byte == 0x21 {
            in_mode(Mode::Bang, state.depth)
        } else if byte == 0x3e {
            after_start_tag(state.depth, false, limit)
        } else {
            Scan { quote: quote_after(Quote::Outside, byte), ..in_mode(Mode::StartTag, state.depth) }
        },
        Mode::StartTag => if state.quote == Quote::Outside && byte == 0x3e {
            after_start_tag(state.depth, state.after_slash, limit)
        } else {
            Scan { quote: quote_after(state.quote, byte), after_slash: byte == 0x2f, ..state }
        },
        Mode::EndTag => if state.quote == Quote::Outside && byte == 0x3e {
            after_end_tag(state.depth)
        } else {
            Scan { quote: quote_after(state.quote, byte), ..state }
        },
        Mode::Instruction => if byte == 0x3e && state.run >= 1 {
            in_mode(Mode::Text, state.depth)
        } else {
            Scan {
                run: if byte == 0x3f {
                    1
                } else {
                    0
                },
                ..state
            }
        },
        Mode::Bang => if byte == 0x5b {
            in_mode(Mode::CData, state.depth)
        } else if byte == 0x2d {
            Scan { run: 1, offset: 3, ..in_mode(Mode::Comment, state.depth) }
        } else if byte == 0x44 || byte == 0x64 {
            in_mode(Mode::Doctype, state.depth)
        } else {
            in_mode(Mode::Stopped, state.depth)
        },
        Mode::Comment => if byte == 0x3e && state.run >= 2 && state.offset >= 6 {
            in_mode(Mode::Text, state.depth)
        } else {
            Scan {
                run: if byte != 0x2d {
                    0
                } else if state.run >= 2 {
                    2
                } else {
                    (state.run + 1) as u8
                },
                offset: if state.offset >= 6 {
                    6
                } else {
                    (state.offset + 1) as u8
                },
                ..state
            }
        },
        Mode::CData => if byte == 0x3e && state.run >= 2 {
            in_mode(Mode::Text, state.depth)
        } else {
            Scan {
                run: if byte != 0x5d {
                    0
                } else if state.run >= 2 {
                    2
                } else {
                    (state.run + 1) as u8
                },
                ..state
            }
        },
        Mode::Doctype => if state.quote == Quote::Outside && byte == 0x3e {
            in_mode(Mode::Text, state.depth)
        } else if state.quote == Quote::Outside && byte == 0x5b {
            in_mode(Mode::Subset, state.depth)
        } else {
            Scan { quote: quote_after(state.quote, byte), ..state }
        },
        Mode::Subset => if byte == 0x5d {
            in_mode(Mode::AfterSubset, state.depth)
        } else if byte == 0x3c {
            in_mode(Mode::SubsetOpened, state.depth)
        } else {
            state
        },
        Mode::AfterSubset => if byte == 0x3e {
            in_mode(Mode::Text, state.depth)
        } else {
            state
        },
        Mode::SubsetOpened => if byte == 0x3f {
            in_mode(Mode::SubsetInstruction, state.depth)
        } else if byte == 0x21 {
            in_mode(Mode::SubsetBang, state.depth)
        } else {
            in_other_markup(state.depth, byte)
        },
        Mode::SubsetBang => match keyword_from(byte) {
            Some(keyword) => Scan { keyword, run: 1, ..in_mode(Mode::SubsetKeyword, state.depth) },
            None => in_other_markup(state.depth, byte),
        },
        Mode::SubsetKeyword => if state.run < keyword_len(state.keyword) && byte == keyword_byte(
            state.keyword,
            state.run,
        ) {
            if state.run + 1 == keyword_len(state.keyword) {
                after_keyword(state.depth, state.keyword)
            } else {
                Scan { run: (state.run + 1) as u8, ..state }
            }
        } else {
            in_other_markup(state.depth, byte)
        },
        Mode::SubsetInstruction => if byte == 0x3e && state.run >= 1 {
            in_mode(Mode::Subset, state.depth)
        } else {
            Scan {
                run: if byte == 0x3f {
                    1
                } else {
                    0
                },
                ..state
            }
        },
        Mode::SubsetComment => if byte == 0x3e && state.run >= 2 {
            in_mode(Mode::Subset, state.depth)
        } else {
            Scan {
                run: if byte != 0x2d {
                    0
                } else if state.run >= 2 {
                    2
                } else {
                    (state.run + 1) as u8
                },
                ..state
            }
        },
        Mode::SubsetQuoted => if state.quote == Quote::Outside && byte == 0x3e {
            in_mode(Mode::Subset, state.depth)
        } else {
            Scan { quote: quote_after(state.quote, byte), ..state }
        },
        Mode::SubsetDecl => if byte == 0x3e {
            in_mode(Mode::Subset, state.depth)
        } else {
            state
        },
        Mode::Stopped => state,
        Mode::TooDeep => state,
    }
}

/// The state behind the last of `bytes`.
pub open spec fn scanned(bytes: Seq<u8>, limit: nat) -> Scan
    decreases bytes.len(),
{
    if bytes.len() == 0 {
        scan_start()
    } else {
        scan_step(scanned(bytes.drop_last(), limit), bytes.last(), limit)
    }
}

/// At no place of the document are more than `limit` elements open.
pub open spec fn nesting_within(bytes: Seq<u8>, limit: nat) -> bool {
    !(scanned(bytes, limit).mode is TooDeep)
}

/// A document that is too deep stays so however it goes on: the bytes that
/// follow change nothing.
pub proof fn lemma_too_deep_is_final(bytes: Seq<u8>, more: Seq<u8>, limit: nat)
    requires
        !nesting_within(bytes, limit),
    ensures
        !nesting_within(bytes + more, limit),
        scanned(bytes + more, limit) == scanned(bytes, limit),
    decreases more.len(),
{
    if more.len() == 0 {
        assert(bytes + more =~= bytes);
    } else {
        lemma_too_deep_is_final(bytes, more.drop_last(), limit);
        assert((bytes + more).drop_last() =~= bytes + more.drop_last());
    }
}

fn next_quote(quote: Quote, byte: u8) -> (next: Quote)
    ensures
        next == quote_after(quote, byte),
{
    match quote {
        Quote::Outside => if byte == 0x27 {
            Quote::Single
        } else if byte == 0x22 {
            Quote::Double
        } else {
            Quote::Outside
        },
        Quote::Single => if byte == 0x27 {
            Quote::Outside
        } else {
            Quote::Single
        },
        Quote::Double => if byte == 0x22 {
            Quote::Outside
        } else {
            Quote::Double
        },
    }
}

fn enter(mode: Mode, depth: usize) -> (state: Scan)
    ensures
        state == in_mode(mode, depth),
{
    Scan {
        mode,
        depth,
        quote: Quote::Outside,
        keyword: Keyword::Comment,
        run: 0,
        offset: 0,
        after_slash: false,
    }
}

fn length_of(keyword: Keyword) -> (len: u8)
    ensures
        len == keyword_len(keyword),
{
    match keyword {
        Keyword::Comment => 2,
        Keyword::Entity => 6,
        Keyword::Attlist => 7,
        Keyword::Notation => 8,
    }
}

fn byte_of(keyword: Keyword, at: u8) -> (byte: u8)
    ensures
        byte == keyword_byte(keyword, at),
{
    match keyword {
        Keyword::Comment => 0x2d,
        Keyword::Entity => if at == 0 {
            0x45
        } else if at == 1 {
            0x4e
        } else if at == 2 {
            0x54
        } else if at == 3 {
            0x49
        } else if at == 4 {
            0x54
        } else {
            0x59
        },
        Keyword::Attlist => if at == 0 {
            0x41
        } else if at == 1 {
            0x54
        } else if at == 2 {
            0x54
        } else if at == 3 {
            0x4c
        } else if at == 4 {
            0x49
        } else if at == 5 {
            0x53
        } else {
            0x54
        },
        Keyword::Notation => if at == 0 {
            0x4e
        } else if at == 1 {
            0x4f
        } else if at == 2 {
            0x54
        } else if at == 3 {
            0x41
        } else if at == 4 {
            0x54
        } else if at == 5 {
            0x49
        } else if at == 6 {
            0x4f
        } else {
            0x4e
        },
    }
}

fn keyword_for(byte: u8) -> (keyword: Option<Keyword>)
    ensures
        keyword == keyword_from(byte),
{
    if byte == 0x2d {
        Some(Keyword::Comment)
    } else if byte == 0x45 {
        Some(Keyword::Entity)
    } else if byte == 0x41 {
        Some(Keyword::Attlist)
    } else if byte == 0x4e {
        Some(Keyword::Notation)
    } else {
        None
    }
}

fn other_markup(depth: usize, byte: u8) -> (state: Scan)
    ensures
        state == in_other_markup(depth, byte),
{
    if byte == 0x3e {
        enter(Mode::Subset, depth)
    } else {
        enter(Mode::SubsetDecl, depth)
    }
}

fn close_keyword(depth: usize, keyword: Keyword) -> (state: Scan)
    ensures
        state == after_keyword(depth, keyword),
{
    match keyword {
        Keyword::Comment => enter(Mode::SubsetComment, depth),
        _ => enter(Mode::SubsetQuoted, depth),
    }
}

fn dashes_after(run: u8, byte: u8, closer: u8) -> (seen: u8)
    ensures
        seen == if byte != closer {
            0u8
        } else if run >= 2 {
            2u8
        } else {
            (run + 1) as u8
        },
{
    if byte != closer {
        0
    } else if run >= 2 {
        2
    } else {
        run + 1
    }
}

fn close_start_tag(depth: usize, closes_itself: bool, limit: usize) -> (state: Scan)
    ensures
        state == after_start_tag(depth, closes_itself, limit as nat),
{
    if depth >= limit {
        enter(Mode::TooDeep, depth)
    } else if closes_itself {
        enter(Mode::Text, depth)
    } else {
        enter(Mode::Text, depth + 1)
    }
}

fn is_outside(quote: Quote) -> (outside: bool)
    ensures
        outside == (quote == Quote::Outside),
{
    match quote {
        Quote::Outside => true,
        _ => false,
    }
}

/// Takes the pass over one byte.
pub fn step(state: Scan, byte: u8, limit: usize) -> (next: Scan)
    ensures
        next == scan_step(state, byte, limit as nat),
{
    let Scan { mode, depth, quote, keyword, run, offset, after_slash } = state;
    match mode {
        Mode::Text => if byte == 0x3c {
            enter(Mode::Opened, depth)
        } else {
            state
        },
        Mode::Opened => if byte == 0x2f {
            enter(Mode::EndTag, depth)
        } else if byte == 0x3f {
            Scan { run: 1, ..enter(Mode::Instruction, depth) }
        } else if byte == 0x21 {
            enter(Mode::Bang, depth)
        } else if byte == 0x3e {
            close_start_tag(depth, false, limit)
        } else {
            Scan { quote: next_quote(Quote::Outside, byte), ..enter(Mode::StartTag, depth) }
        },
        Mode::StartTag => if is_outside(quote) && byte == 0x3e {
            close_start_tag(depth, after_slash, limit)
        } else {
            Scan { quote: next_quote(quote, byte), after_slash: byte == 0x2f, ..state }
        },
        Mode::EndTag => if is_outside(quote) && byte == 0x3e {
            enter(Mode::Text, if depth > 0 {
                depth - 1
            } else {
                0
            })
        } else {
            Scan { quote: next_quote(quote, byte), ..state }
        },
        Mode::Instruction => if byte == 0x3e && run >= 1 {
            enter(Mode::Text, depth)
        } else {
            Scan { run: dashes_after(0, byte, 0x3f), ..state }
        },
        Mode::Bang => if byte == 0x5b {
            enter(Mode::CData, depth)
        } else if byte == 0x2d {
            Scan { run: 1, offset: 3, ..enter(Mode::Comment, depth) }
        } else if byte == 0x44 || byte == 0x64 {
            enter(Mode::Doctype, depth)
        } else {
            enter(Mode::Stopped, depth)
        },
        Mode::Comment => if byte == 0x3e && run >= 2 && offset >= 6 {
            enter(Mode::Text, depth)
        } else {
            let behind: u8 = if offset >= 6 {
                6
            } else {
                offset + 1
            };
            Scan { run: dashes_after(run, byte, 0x2d), offset: behind, ..state }
        },
        Mode::CData => if byte == 0x3e && run >= 2 {
            enter(Mode::Text, depth)
        } else {
            Scan { run: dashes_after(run, byte, 0x5d), ..state }
        },
        Mode::Doctype => if is_outside(quote) && byte == 0x3e {
            enter(Mode::Text, depth)
        } else if is_outside(quote) && byte == 0x5b {
            enter(Mode::Subset, depth)
        } else {
            Scan { quote: next_quote(quote, byte), ..state }
        },
        Mode::Subset => if byte == 0x5d {
            enter(Mode::AfterSubset, depth)
        } else if byte == 0x3c {
            enter(Mode::SubsetOpened, depth)
        } else {
            state
        },
        Mode::AfterSubset => if byte == 0x3e {
            enter(Mode::Text, depth)
        } else {
            state
        },
        Mode::SubsetOpened => if byte == 0x3f {
            enter(Mode::SubsetInstruction, depth)
        } else if byte == 0x21 {
            enter(Mode::SubsetBang, depth)
        } else {
            other_markup(depth, byte)
        },
        Mode::SubsetBang => match keyword_for(byte) {
            Some(begun) => Scan { keyword: begun, run: 1, ..enter(Mode::SubsetKeyword, depth) },
            None => other_markup(depth, byte),
        },
        Mode::SubsetKeyword => if run < length_of(keyword) && byte == byte_of(keyword, run) {
            if run + 1 == length_of(keyword) {
                close_keyword(depth, keyword)
            } else {
                Scan { run: run + 1, ..state }
            }
        } else {
            other_markup(depth, byte)
        },
        Mode::SubsetInstruction => if byte == 0x3e && run >= 1 {
            enter(Mode::Subset, depth)
        } else {
            Scan { run: dashes_after(0, byte, 0x3f), ..state }
        },
        Mode::SubsetComment => if byte == 0x3e && run >= 2 {
            enter(Mode::Subset, depth)
        } else {
            Scan { run: dashes_after(run, byte, 0x2d), ..state }
        },
        Mode::SubsetQuoted => if is_outside(quote) && byte == 0x3e {
            enter(Mode::Subset, depth)
        } else {
            Scan { quote: next_quote(quote, byte), ..state }
        },
        Mode::SubsetDecl => if byte == 0x3e {
            enter(Mode::Subset, depth)
        } else {
            state
        },
        Mode::Stopped => state,
        Mode::TooDeep => state,
    }
}

/// Whether at no place of the document more than `limit` elements are open.
pub fn nesting_is_within(bytes: &[u8], limit: usize) -> (within: bool)
    ensures
        within == nesting_within(bytes@, limit as nat),
{
    let mut state = enter(Mode::Text, 0);
    let mut i: usize = 0;
    proof {
        assert(bytes@.take(0) =~= Seq::<u8>::empty());
    }
    while i < bytes.len()
        invariant
            i <= bytes.len(),
            state == scanned(bytes@.take(i as int), limit as nat),
            !(state.mode is TooDeep),
        decreases bytes.len() - i,
    {
        proof {
            assert(bytes@.take(i + 1).drop_last() =~= bytes@.take(i as int));
            assert(bytes@.take(i + 1).last() == bytes@[i as int]);
        }
        state = step(state, bytes[i], limit);
        i += 1;
        if let Mode::TooDeep = state.mode {
            proof {
                lemma_too_deep_is_final(bytes@.take(i as int), bytes@.skip(i as int), limit as nat);
                assert(bytes@.take(i as int) + bytes@.skip(i as int) =~= bytes@);
            }
            return false;
        }
    }
    proof {
        assert(bytes@.take(i as int) =~= bytes@);
    }
    true
}

} // verus!
