//! Cutting a long answer into messages of bounded length.
//!
//! A cut is made after the last line break within the limit, else after the
//! last blank, else at the limit. A code fence that is open at a cut is
//! closed at the end of the chunk and opened again, with its language tag,
//! at the start of the next.
//!
//! Every length here counts characters, not UTF-8 bytes, and that is on
//! purpose: a chat service limits a message by its characters, so a text of
//! three accented letters under a limit of four is one message, not two.

use crate::context::texts_of;
use crate::text::{
    chars_of, lemma_trim_end, lemma_trim_start, push_range, string_of_range, trim_bounds,
    trim_end_of, trim_range, trim_start_of, trimmed,
};
use vstd::prelude::*;
use vstd::string::{StrSliceExecFns, StringExecFns};

verus! {

/// The marker that opens and closes a code block.
pub const FENCE: &'static str = "```";

/// What closes a code block at the end of a chunk.
pub const FENCE_CLOSE: &'static str = "\n```";

/// Characters kept free at the end of a chunk for closing a code block.
pub const CLOSE_RESERVE: usize = 4;

/// The three back quotes of a fence.
pub open spec fn fence_chars() -> Seq<char> {
    seq!['`', '`', '`']
}

/// Index of the last `c` in `s`, or -1 if there is none.
pub open spec fn last_index_of(s: Seq<char>, c: char) -> int
    decreases s.len(),
{
    if s.len() == 0 {
        -1
    } else if s.last() == c {
        s.len() - 1
    } else {
        last_index_of(s.drop_last(), c)
    }
}

/// Index of the first `c` in `s`, or -1 if there is none.
pub open spec fn first_index_of(s: Seq<char>, c: char) -> int
    decreases s.len(),
{
    if s.len() == 0 {
        -1
    } else if s[0] == c {
        0
    } else {
        let later = first_index_of(s.drop_first(), c);
        if later < 0 {
            -1
        } else {
            later + 1
        }
    }
}

/// `last_index_of` finds the last occurrence, and -1 only if there is none.
pub proof fn lemma_last_index_of(s: Seq<char>, c: char)
    ensures
        -1 <= last_index_of(s, c) < s.len(),
        last_index_of(s, c) >= 0 ==> s[last_index_of(s, c)] == c,
        forall|i: int| last_index_of(s, c) < i < s.len() ==> s[i] != c,
    decreases s.len(),
{
    if s.len() > 0 && s.last() != c {
        lemma_last_index_of(s.drop_last(), c);
        assert forall|i: int| last_index_of(s, c) < i < s.len() implies s[i] != c by {
            if i < s.len() - 1 {
                assert(s.drop_last()[i] == s[i]);
            }
        }
    }
}

/// `first_index_of` finds the first occurrence, and -1 only if there is none.
pub proof fn lemma_first_index_of(s: Seq<char>, c: char)
    ensures
        -1 <= first_index_of(s, c) < s.len(),
        first_index_of(s, c) >= 0 ==> s[first_index_of(s, c)] == c,
        forall|i: int|
            0 <= i < (if first_index_of(s, c) < 0 {
                s.len() as int
            } else {
                first_index_of(s, c)
            }) ==> s[i] != c,
    decreases s.len(),
{
    if s.len() > 0 && s[0] != c {
        lemma_first_index_of(s.drop_first(), c);
        let bound = if first_index_of(s, c) < 0 {
            s.len() as int
        } else {
            first_index_of(s, c)
        };
        assert forall|i: int| 0 <= i < bound implies s[i] != c by {
            if i > 0 {
                assert(s.drop_first()[i - 1] == s[i]);
            }
        }
    }
}

/// Where to cut `s` when at most `limit` characters fit: behind the last
/// line break among the first `limit` characters, else behind the last
/// blank among them, else after `limit` characters.
pub open spec fn split_point(s: Seq<char>, limit: int) -> int {
    let head = s.take(limit);
    let line_break = last_index_of(head, '\n');
    let blank = last_index_of(head, ' ');
    if line_break >= 0 {
        line_break + 1
    } else if blank >= 0 {
        blank + 1
    } else {
        limit
    }
}

/// A cut takes at least one character and at most `limit`.
pub proof fn lemma_split_point(s: Seq<char>, limit: int)
    requires
        1 <= limit <= s.len(),
    ensures
        1 <= split_point(s, limit) <= limit,
{
    lemma_last_index_of(s.take(limit), '\n');
    lemma_last_index_of(s.take(limit), ' ');
}

/// `line` without a carriage return at its end.
pub open spec fn without_return(line: Seq<char>) -> Seq<char> {
    if line.len() > 0 && line.last() == '\r' {
        line.drop_last()
    } else {
        line
    }
}

/// The language tag of a fence line: if `line`, trimmed, starts with a
/// fence, what follows the fence, trimmed.
pub open spec fn fence_tag(line: Seq<char>) -> Option<Seq<char>> {
    let shown = trimmed(without_return(line));
    if fence_chars().is_prefix_of(shown) {
        Some(trimmed(shown.skip(3)))
    } else {
        None
    }
}

/// The open code block after `line`: a fence line closes an open block, and
/// opens one under its tag when none is open; other lines change nothing.
pub open spec fn toggled(open: Option<Seq<char>>, line: Seq<char>) -> Option<Seq<char>> {
    match fence_tag(line) {
        None => open,
        Some(tag) => if open is Some {
            None
        } else {
            Some(tag)
        },
    }
}

/// The open code block after all the lines of `text`.
pub open spec fn fence_state_after(open: Option<Seq<char>>, text: Seq<char>) -> Option<Seq<char>>
    decreases text.len(),
{
    let line_break = first_index_of(text, '\n');
    if 0 <= line_break < text.len() {
        fence_state_after(toggled(open, text.take(line_break)), text.skip(line_break + 1))
    } else {
        toggled(open, text)
    }
}

/// The language tag of the open code block, if one is open.
pub open spec fn tag_of(open: Option<String>) -> Option<Seq<char>> {
    match open {
        Some(tag) => Some(tag@),
        None => None,
    }
}

/// Position of the last `c` in `v[from..to]`.
fn find_last(v: &Vec<char>, from: usize, to: usize, c: char) -> (r: Option<usize>)
    requires
        from <= to <= v.len(),
    ensures
        match r {
            Some(i) => from <= i < to && last_index_of(v@.subrange(from as int, to as int), c) == i
                - from,
            None => last_index_of(v@.subrange(from as int, to as int), c) == -1,
        },
{
    let mut j: usize = to;
    while j > from
        invariant
            from <= j <= to <= v.len(),
            last_index_of(v@.subrange(from as int, to as int), c) == last_index_of(
                v@.subrange(from as int, j as int),
                c,
            ),
        decreases j,
    {
        if v[j - 1] == c {
            return Some(j - 1);
        }
        assert(v@.subrange(from as int, j as int).drop_last() == v@.subrange(
            from as int,
            j as int - 1,
        ));
        j -= 1;
    }
    None
}

/// Position of the first `c` in `v[from..to]`.
fn find_first(v: &Vec<char>, from: usize, to: usize, c: char) -> (r: Option<usize>)
    requires
        from <= to <= v.len(),
    ensures
        match r {
            Some(i) => from <= i < to && first_index_of(v@.subrange(from as int, to as int), c)
                == i - from,
            None => first_index_of(v@.subrange(from as int, to as int), c) == -1,
        },
{
    let ghost s = v@.subrange(from as int, to as int);
    let mut j: usize = from;
    while j < to
        invariant
            from <= j <= to <= v.len(),
            s == v@.subrange(from as int, to as int),
            forall|k: int| 0 <= k < j - from ==> s[k] != c,
        decreases to - j,
    {
        if v[j] == c {
            proof {
                lemma_first_index_of(s, c);
                let found = first_index_of(s, c);
                assert(s[j - from] == c);
                if found > j - from {
                    assert(s[j - from] != c);
                }
                if 0 <= found < j - from {
                    assert(s[found] != c);
                }
            }
            return Some(j);
        }
        j += 1;
    }
    proof {
        lemma_first_index_of(s, c);
        let found = first_index_of(s, c);
        if found >= 0 {
            assert(s[found] != c);
        }
    }
    None
}

/// Where to cut `v[from..]` when at most `limit` characters fit.
fn cut_position(v: &Vec<char>, from: usize, limit: usize) -> (at: usize)
    requires
        from + limit <= v.len(),
    ensures
        at - from == split_point(v@.skip(from as int), limit as int),
        from <= at <= from + limit,
{
    proof {
        assert(v@.skip(from as int).take(limit as int) =~= v@.subrange(
            from as int,
            from + limit,
        ));
    }
    match find_last(v, from, from + limit, '\n') {
        Some(i) => i + 1,
        None => match find_last(v, from, from + limit, ' ') {
            Some(i) => i + 1,
            None => from + limit,
        },
    }
}

/// Takes note of the line `v[from..to]`.
fn note_line(open: &mut Option<String>, v: &Vec<char>, from: usize, to: usize)
    requires
        from <= to <= v.len(),
    ensures
        tag_of(*final(open)) == toggled(tag_of(*old(open)), v@.subrange(from as int, to as int)),
{
    let ghost line = v@.subrange(from as int, to as int);
    let end: usize = if to > from && v[to - 1] == '\r' {
        to - 1
    } else {
        to
    };
    assert(without_return(line) =~= v@.subrange(from as int, end as int));
    let (a, b) = trim_range(v, from, end);
    let ghost shown = v@.subrange(a as int, b as int);
    let fenced = b - a >= 3 && v[a] == '`' && v[a + 1] == '`' && v[a + 2] == '`';
    proof {
        if fenced {
            assert(shown.subrange(0, 3) =~= fence_chars());
        } else if fence_chars().is_prefix_of(shown) {
            assert(shown.subrange(0, 3)[0] == '`');
            assert(shown.subrange(0, 3)[1] == '`');
            assert(shown.subrange(0, 3)[2] == '`');
        }
    }
    if fenced {
        if open.is_some() {
            *open = None;
        } else {
            let (c, d) = trim_range(v, a + 3, b);
            assert(shown.skip(3) =~= v@.subrange(a + 3, b as int));
            *open = Some(string_of_range(v, c, d));
        }
    }
}

/// Takes note of all the lines of `v[from..to]`.
fn note_lines(open: &mut Option<String>, v: &Vec<char>, from: usize, to: usize)
    requires
        from <= to <= v.len(),
    ensures
        tag_of(*final(open)) == fence_state_after(
            tag_of(*old(open)),
            v@.subrange(from as int, to as int),
        ),
{
    let mut pos: usize = from;
    let mut done: bool = false;
    while !done
        invariant
            from <= pos <= to <= v.len(),
            !done ==> fence_state_after(tag_of(*old(open)), v@.subrange(from as int, to as int))
                == fence_state_after(tag_of(*open), v@.subrange(pos as int, to as int)),
            done ==> fence_state_after(tag_of(*old(open)), v@.subrange(from as int, to as int))
                == tag_of(*open),
        decreases to - pos + (if done { 0int } else { 1int }),
    {
        let ghost text = v@.subrange(pos as int, to as int);
        match find_first(v, pos, to, '\n') {
            Some(line_break) => {
                proof {
                    assert(text.take(line_break - pos) =~= v@.subrange(
                        pos as int,
                        line_break as int,
                    ));
                    assert(text.skip(line_break - pos + 1) =~= v@.subrange(
                        line_break + 1,
                        to as int,
                    ));
                }
                note_line(open, v, pos, line_break);
                pos = line_break + 1;
            },
            None => {
                note_line(open, v, pos, to);
                done = true;
            },
        }
    }
}

/// Follows the code fences of `text`: on return `state` holds the language
/// tag of the block that is open after the last line of `text`, or nothing
/// when no block is open.
pub fn update_code_block_state(state: &mut Option<String>, text: &str)
    ensures
        tag_of(*final(state)) == fence_state_after(tag_of(*old(state)), text@),
{
    let v = chars_of(text);
    assert(v@.subrange(0, v@.len() as int) =~= v@);
    note_lines(state, &v, 0, v.len());
}

/// What reopens a code block at the start of a chunk; nothing when no block
/// is open.
pub open spec fn fence_prefix(open: Option<Seq<char>>) -> Seq<char> {
    match open {
        Some(tag) => FENCE@ + tag + "\n"@,
        None => Seq::empty(),
    }
}

/// What closes a chunk: the closing fence when a block is open.
pub open spec fn fence_suffix(open: Option<Seq<char>>) -> Seq<char> {
    if open is Some {
        FENCE_CLOSE@
    } else {
        Seq::empty()
    }
}

/// Characters of the text that fit into a chunk of `max_len` characters once
/// the reopening of the code block and the room for closing it are taken
/// off. Not positive when the reopening alone fills the chunk.
pub open spec fn room(open: Option<Seq<char>>, max_len: nat) -> int {
    max_len - fence_prefix(open).len() - (if open is Some {
        CLOSE_RESERVE as int
    } else {
        0
    })
}

/// Whether `s` holds nothing but whitespace.
pub open spec fn is_blank(s: Seq<char>) -> bool {
    trimmed(s).len() == 0
}

/// `chunk` as a list: empty when the chunk is blank.
pub open spec fn unless_blank(chunk: Seq<char>) -> Seq<Seq<char>> {
    if is_blank(chunk) {
        Seq::empty()
    } else {
        seq![chunk]
    }
}

/// The chunks for what is left of a text, `open` being the code block that
/// is open where `rest` starts.
///
/// When all of `rest` fits, it is the last chunk. Otherwise `rest` is cut
/// where `split_point` says; a cut always takes at least one character, even
/// where no room is left. Blank chunks are dropped.
#[verifier::opaque]
pub open spec fn message_chunks(rest: Seq<char>, open: Option<Seq<char>>, max_len: nat) -> Seq<
    Seq<char>,
>
    decreases rest.len(),
{
    if rest.len() == 0 {
        Seq::empty()
    } else if rest.len() <= room(open, max_len) {
        unless_blank(fence_prefix(open) + rest)
    } else {
        let limit = if room(open, max_len) < 1 {
            1
        } else {
            room(open, max_len)
        };
        let at = split_point(rest, limit);
        let piece = rest.take(at);
        let next = fence_state_after(open, piece);
        let chunk = fence_prefix(open) + piece + fence_suffix(next);
        if 0 < at <= rest.len() {
            unless_blank(chunk) + message_chunks(rest.skip(at), next, max_len)
        } else {
            unless_blank(chunk)
        }
    }
}

/// The messages into which `text` is cut: `text` itself when it fits, else
/// its chunks, else (when every chunk was blank) its first `max_len`
/// characters.
pub open spec fn message_split(text: Seq<char>, max_len: nat) -> Seq<Seq<char>> {
    if text.len() <= max_len {
        seq![text]
    } else {
        let chunks = message_chunks(text, None, max_len);
        if chunks.len() == 0 {
            seq![text.take(max_len as int)]
        } else {
            chunks
        }
    }
}

/// Whether `s` holds no back quote, and so no code fence.
pub open spec fn is_plain(s: Seq<char>) -> bool {
    forall|i: int| 0 <= i < s.len() ==> s[i] != '`'
}

/// The trimmed form of a text is a part of the text.
pub proof fn lemma_trimmed_is_part(s: Seq<char>) -> (bounds: (int, int))
    ensures
        0 <= bounds.0 <= bounds.1 <= s.len(),
        trimmed(s) == s.subrange(bounds.0, bounds.1),
{
    let u = trim_start_of(s);
    let t = trim_end_of(u);
    lemma_trim_start(s);
    lemma_trim_end(u);
    let a = s.len() - u.len();
    assert(t =~= s.subrange(a, a + t.len()));
    (a, a + t.len())
}

/// A line without a back quote is no fence line.
pub proof fn lemma_plain_line(line: Seq<char>)
    requires
        is_plain(line),
    ensures
        fence_tag(line) is None,
{
    let bare = without_return(line);
    let bounds = lemma_trimmed_is_part(bare);
    let shown = trimmed(bare);
    if fence_chars().is_prefix_of(shown) {
        assert(shown.subrange(0, 3)[0] == '`');
        assert(shown[0] == bare[bounds.0]);
        assert(bare[bounds.0] == line[bounds.0]);
    }
}

/// A text without a back quote opens no code block.
pub proof fn lemma_plain_text_opens_nothing(text: Seq<char>)
    requires
        is_plain(text),
    ensures
        fence_state_after(None, text) is None,
    decreases text.len(),
{
    let line_break = first_index_of(text, '\n');
    if 0 <= line_break < text.len() {
        let line = text.take(line_break);
        let rest = text.skip(line_break + 1);
        assert(is_plain(line)) by {
            assert forall|i: int| 0 <= i < line.len() implies line[i] != '`' by {
                assert(line[i] == text[i]);
            }
        }
        assert(is_plain(rest)) by {
            assert forall|i: int| 0 <= i < rest.len() implies rest[i] != '`' by {
                assert(rest[i] == text[line_break + 1 + i]);
            }
        }
        lemma_plain_line(line);
        lemma_plain_text_opens_nothing(rest);
    } else {
        lemma_plain_line(text);
    }
}

/// Every chunk of what is left of a text without code fences fits.
pub proof fn lemma_plain_chunks_fit(rest: Seq<char>, max_len: nat)
    requires
        max_len >= 1,
        is_plain(rest),
    ensures
        forall|i: int|
            0 <= i < message_chunks(rest, None, max_len).len() ==> (#[trigger] message_chunks(
                rest,
                None,
                max_len,
            )[i]).len() <= max_len,
    decreases rest.len(),
{
    let open: Option<Seq<char>> = None;
    let chunks = message_chunks(rest, open, max_len);
    assert(fence_prefix(open) =~= Seq::<char>::empty());
    assert(room(open, max_len) == max_len);
    if rest.len() == 0 {
        lemma_no_chunk(open, max_len);
        assert(rest =~= Seq::<char>::empty());
        assert(chunks.len() == 0);
    } else if rest.len() <= max_len {
        lemma_last_chunk(rest, open, max_len);
        assert(fence_prefix(open) + rest =~= rest);
        assert(chunks == unless_blank(rest));
        assert forall|i: int| 0 <= i < chunks.len() implies (#[trigger] chunks[i]).len()
            <= max_len by {
            assert(chunks[i] == rest);
        }
    } else {
        lemma_cut_chunk(rest, open, max_len);
        let at = split_point(rest, max_len as int);
        let piece = rest.take(at);
        let tail_text = rest.skip(at);
        assert(is_plain(piece)) by {
            assert forall|i: int| 0 <= i < piece.len() implies piece[i] != '`' by {
                assert(piece[i] == rest[i]);
            }
        }
        assert(is_plain(tail_text)) by {
            assert forall|i: int| 0 <= i < tail_text.len() implies tail_text[i] != '`' by {
                assert(tail_text[i] == rest[at + i]);
            }
        }
        lemma_plain_text_opens_nothing(piece);
        let next = fence_state_after(open, piece);
        assert(next is None);
        assert(fence_suffix(next) =~= Seq::<char>::empty());
        let chunk = fence_prefix(open) + piece + fence_suffix(next);
        assert(chunk =~= piece);
        lemma_plain_chunks_fit(tail_text, max_len);
        let head = unless_blank(chunk);
        let tail = message_chunks(tail_text, next, max_len);
        assert(chunks == head + tail);
        assert forall|i: int| 0 <= i < chunks.len() implies (#[trigger] chunks[i]).len()
            <= max_len by {
            if i < head.len() {
                assert(chunks[i] == head[i]);
            } else {
                assert(chunks[i] == tail[i - head.len()]);
            }
        }
    }
}

/// A text without code fences is cut into messages of at most `max_len`
/// characters each.
pub proof fn law_plain_messages_fit(text: Seq<char>, max_len: nat)
    requires
        max_len >= 1,
        is_plain(text),
    ensures
        forall|i: int|
            0 <= i < message_split(text, max_len).len() ==> (#[trigger] message_split(
                text,
                max_len,
            )[i]).len() <= max_len,
{
    lemma_plain_chunks_fit(text, max_len);
}

/// What reopens the code block `open` at the start of a chunk.
fn reopening(open: &Option<String>) -> (prefix: String)
    ensures
        prefix@ == fence_prefix(tag_of(*open)),
{
    match open {
        Some(tag) => {
            let mut prefix = String::from_str(FENCE);
            prefix.append(tag.as_str());
            prefix.append("\n");
            prefix
        },
        None => String::new(),
    }
}

/// Appends `chunk` to `chunks` unless it is blank.
fn push_unless_blank(chunks: &mut Vec<String>, chunk: String)
    ensures
        texts_of(final(chunks)@) == texts_of(old(chunks)@) + unless_blank(chunk@),
{
    let chars = chars_of(chunk.as_str());
    let (a, b) = trim_bounds(&chars);
    if a < b {
        chunks.push(chunk);
        assert(texts_of(chunks@) =~= texts_of(old(chunks)@) + unless_blank(chunk@));
    } else {
        assert(texts_of(chunks@) =~= texts_of(old(chunks)@) + unless_blank(chunk@));
    }
}

/// Characters of the text that fit into a chunk that starts with `prefix`;
/// zero when none fit.
fn room_behind(prefix: &String, fenced: bool, max_len: usize) -> (n: usize)
    ensures
        n == ({
            let left = max_len - prefix@.len() - (if fenced {
                CLOSE_RESERVE as int
            } else {
                0
            });
            if left < 0 {
                0
            } else {
                left
            }
        }),
{
    let used = prefix.as_str().unicode_len();
    if used >= max_len {
        return 0;
    }
    let left = max_len - used;
    if !fenced {
        left
    } else if left <= CLOSE_RESERVE {
        0
    } else {
        left - CLOSE_RESERVE
    }
}

/// What `message_chunks` yields when all that is left fits into one chunk.
pub proof fn lemma_last_chunk(rest: Seq<char>, open: Option<Seq<char>>, max_len: nat)
    requires
        0 < rest.len() <= room(open, max_len),
    ensures
        message_chunks(rest, open, max_len) == unless_blank(fence_prefix(open) + rest),
{
    reveal(message_chunks);
}

/// What `message_chunks` yields when a cut has to be made: the chunk up to
/// the cut, then the chunks of what follows the cut.
pub proof fn lemma_cut_chunk(rest: Seq<char>, open: Option<Seq<char>>, max_len: nat)
    requires
        rest.len() > 0,
        rest.len() > room(open, max_len),
    ensures
        ({
            let limit = if room(open, max_len) < 1 {
                1
            } else {
                room(open, max_len)
            };
            let at = split_point(rest, limit);
            let next = fence_state_after(open, rest.take(at));
            &&& 0 < at <= limit <= rest.len()
            &&& message_chunks(rest, open, max_len) == unless_blank(
                fence_prefix(open) + rest.take(at) + fence_suffix(next),
            ) + message_chunks(rest.skip(at), next, max_len)
        }),
{
    let limit = if room(open, max_len) < 1 {
        1
    } else {
        room(open, max_len)
    };
    lemma_split_point(rest, limit);
    reveal(message_chunks);
}

/// Nothing is left to cut of an empty text.
pub proof fn lemma_no_chunk(open: Option<Seq<char>>, max_len: nat)
    ensures
        message_chunks(Seq::empty(), open, max_len) == Seq::<Seq<char>>::empty(),
{
    reveal(message_chunks);
}

/// Cuts the next chunk off `v[pos..]`, appends it to `chunks` unless it is
/// blank, and returns where the rest starts.
fn take_chunk(
    chunks: &mut Vec<String>,
    open: &mut Option<String>,
    v: &Vec<char>,
    pos: usize,
    max_len: usize,
) -> (next: usize)
    requires
        pos < v.len(),
    ensures
        pos < next <= v.len(),
        texts_of(final(chunks)@) + message_chunks(
            v@.skip(next as int),
            tag_of(*final(open)),
            max_len as nat,
        ) == texts_of(old(chunks)@) + message_chunks(
            v@.skip(pos as int),
            tag_of(*old(open)),
            max_len as nat,
        ),
{
    let ghost rest = v@.skip(pos as int);
    let ghost before = texts_of(chunks@);
    let ghost state = tag_of(*open);
    let mut chunk = reopening(open);
    let available = room_behind(&chunk, open.is_some(), max_len);
    let left = v.len() - pos;
    if left <= available {
        push_range(&mut chunk, v, pos, v.len());
        proof {
            assert(v@.subrange(pos as int, v@.len() as int) =~= rest);
            lemma_last_chunk(rest, state, max_len as nat);
        }
        push_unless_blank(chunks, chunk);
        proof {
            let tail = message_chunks(v@.skip(v@.len() as int), tag_of(*open), max_len as nat);
            assert(v@.skip(v@.len() as int) =~= Seq::<char>::empty());
            lemma_no_chunk(tag_of(*open), max_len as nat);
            assert(texts_of(chunks@) + tail =~= texts_of(chunks@));
        }
        v.len()
    } else {
        let limit = if available < 1 {
            1
        } else {
            available
        };
        proof {
            lemma_cut_chunk(rest, state, max_len as nat);
        }
        let at = cut_position(v, pos, limit);
        proof {
            assert(rest.take(at - pos) =~= v@.subrange(pos as int, at as int));
            assert(rest.skip(at - pos) =~= v@.skip(at as int));
        }
        push_range(&mut chunk, v, pos, at);
        note_lines(open, v, pos, at);
        if open.is_some() {
            chunk.append(FENCE_CLOSE);
        }
        let ghost piece = rest.take(at - pos);
        let ghost next = tag_of(*open);
        assert(chunk@ =~= fence_prefix(state) + piece + fence_suffix(next));
        push_unless_blank(chunks, chunk);
        proof {
            let head = unless_blank(fence_prefix(state) + piece + fence_suffix(next));
            let tail = message_chunks(v@.skip(at as int), next, max_len as nat);
            assert(texts_of(chunks@) + tail =~= before + (head + tail));
        }
        at
    }
}

/// Cuts `text` into messages of at most `max_len` characters. The limit
/// counts characters, not UTF-8 bytes, on purpose.
///
/// A text that fits is returned as it is. A longer one is cut at line
/// breaks where it can be, else at blanks, else at the limit; code blocks
/// that a cut runs through are closed and reopened around it. Where the
/// reopening of a code block leaves no room in a chunk, the chunk takes one
/// character of the text all the same and is longer than `max_len`.
pub fn split_message(text: &str, max_len: usize) -> (chunks: Vec<String>)
    ensures
        texts_of(chunks@) == message_split(text@, max_len as nat),
{
    let v = chars_of(text);
    let mut chunks: Vec<String> = Vec::new();
    if v.len() <= max_len {
        chunks.push(String::from_str(text));
        assert(texts_of(chunks@) =~= seq![text@]);
        return chunks;
    }
    let mut open: Option<String> = None;
    let mut pos: usize = 0;
    assert(v@.skip(0) =~= v@);
    assert(texts_of(chunks@) + message_chunks(v@, None, max_len as nat) =~= message_chunks(
        v@,
        None,
        max_len as nat,
    ));
    while pos < v.len()
        invariant
            pos <= v.len(),
            texts_of(chunks@) + message_chunks(v@.skip(pos as int), tag_of(open), max_len as nat)
                == message_chunks(v@, None, max_len as nat),
        decreases v.len() - pos,
    {
        pos = take_chunk(&mut chunks, &mut open, &v, pos, max_len);
    }
    proof {
        assert(v@.skip(pos as int) =~= Seq::<char>::empty());
        lemma_no_chunk(tag_of(open), max_len as nat);
        assert(texts_of(chunks@) + Seq::<Seq<char>>::empty() =~= texts_of(chunks@));
    }
    if chunks.len() == 0 {
        chunks.push(string_of_range(&v, 0, max_len));
        assert(v@.subrange(0, max_len as int) =~= v@.take(max_len as int));
        assert(texts_of(chunks@) =~= seq![text@.take(max_len as int)]);
    }
    chunks
}

/// The part of a growing answer to send now, and what to carry over.
///
/// The answer is cut within its first `max_len` characters. When the cut
/// runs through a code block, the part to send gets a closing fence and the
/// part carried over starts by reopening the block.
pub open spec fn streaming_split(accumulated: Seq<char>, max_len: nat) -> (Seq<char>, Seq<char>) {
    let limit = if max_len <= accumulated.len() {
        max_len as int
    } else {
        accumulated.len() as int
    };
    let at = split_point(accumulated, limit);
    let piece = accumulated.take(at);
    let rest = accumulated.skip(at);
    match fence_state_after(None, piece) {
        Some(tag) => (piece + FENCE_CLOSE@, FENCE@ + tag + "\n"@ + rest),
        None => (piece, rest),
    }
}

/// Cuts a growing answer into the part to send now and the part to carry
/// over into the next message. The limit counts characters, not UTF-8
/// bytes, on purpose.
pub fn split_streaming(accumulated: &str, max_len: usize) -> (parts: (String, String))
    ensures
        (parts.0@, parts.1@) == streaming_split(accumulated@, max_len as nat),
{
    let v = chars_of(accumulated);
    let limit = if max_len <= v.len() {
        max_len
    } else {
        v.len()
    };
    assert(v@.skip(0) =~= v@);
    let at = cut_position(&v, 0, limit);
    let mut open: Option<String> = None;
    note_lines(&mut open, &v, 0, at);
    let mut send = string_of_range(&v, 0, at);
    proof {
        assert(v@.subrange(0, at as int) =~= v@.take(at as int));
        assert(v@.subrange(at as int, v@.len() as int) =~= v@.skip(at as int));
    }
    match open {
        Some(tag) => {
            send.append(FENCE_CLOSE);
            let mut carry = String::from_str(FENCE);
            carry.append(tag.as_str());
            carry.append("\n");
            push_range(&mut carry, &v, at, v.len());
            (send, carry)
        },
        None => {
            let carry = string_of_range(&v, at, v.len());
            (send, carry)
        },
    }
}

} // verus!
