//! Knowledge-source indexing: splitting notes and text files into chunks of
//! bounded size on paragraph and word boundaries.

use vstd::prelude::*;
use crate::text::{
    chars_eq, chars_of, ends_with, is_white_space, is_ws, lemma_trim_ends, lemma_trim_fixed,
    lemma_trim_idempotent, lemma_trim_shorter, lemma_visible_concat,
    lemma_visible_push, lemma_visible_trim, lower, lower_chars, same_text, starts_with, string_of,
    trim, trim_chars, visible,
};
use vstd::utf8::{decode_utf8, valid_utf8};

verus! {

/// Chunk size used when indexing knowledge sources.
pub const DEFAULT_CHUNK_MAX_CHARS: usize = 1500;

// ---------------------------------------------------------------------------
// Splitting on the paragraph separator "\n\n" (`str::split("\n\n")`).
// State: finished pieces, the piece being read, and whether a '\n' is pending.
// ---------------------------------------------------------------------------

pub open spec fn para_step(st: (Seq<Seq<char>>, Seq<char>, bool), c: char) -> (
    Seq<Seq<char>>,
    Seq<char>,
    bool,
) {
    let (pieces, cur, pending) = st;
    if c == '\n' {
        if pending {
            (pieces.push(cur), Seq::empty(), false)
        } else {
            (pieces, cur, true)
        }
    } else if pending {
        (pieces, cur.push('\n').push(c), false)
    } else {
        (pieces, cur.push(c), false)
    }
}

pub open spec fn para_state(s: Seq<char>) -> (Seq<Seq<char>>, Seq<char>, bool)
    decreases s.len(),
{
    if s.len() == 0 {
        (Seq::empty(), Seq::empty(), false)
    } else {
        para_step(para_state(s.drop_last()), s.last())
    }
}

/// The pieces of `s` between occurrences of "\n\n", left to right.
pub open spec fn split_paragraphs(s: Seq<char>) -> Seq<Seq<char>> {
    let (pieces, cur, pending) = para_state(s);
    if pending {
        pieces.push(cur.push('\n'))
    } else {
        pieces.push(cur)
    }
}

/// Each of the pieces `ps`, trimmed.
pub open spec fn trims(ps: Seq<Seq<char>>) -> Seq<Seq<char>> {
    ps.map_values(|p: Seq<char>| trim(p))
}

/// The pieces `ps` that are not empty.
pub open spec fn nonblank(ps: Seq<Seq<char>>) -> Seq<Seq<char>> {
    ps.filter(|p: Seq<char>| p.len() > 0)
}

/// The pieces `ps`, trimmed, without those left empty.
pub open spec fn nonblank_trims(ps: Seq<Seq<char>>) -> Seq<Seq<char>> {
    nonblank(trims(ps))
}

/// Trimmed non-empty paragraphs of `s`.
pub open spec fn paragraphs(s: Seq<char>) -> Seq<Seq<char>> {
    nonblank_trims(split_paragraphs(s))
}

// ---------------------------------------------------------------------------
// Splitting on whitespace (`str::split_whitespace`).
// ---------------------------------------------------------------------------

pub open spec fn word_step(st: (Seq<Seq<char>>, Seq<char>), c: char) -> (Seq<Seq<char>>, Seq<char>) {
    let (done, cur) = st;
    if is_ws(c) {
        if cur.len() > 0 {
            (done.push(cur), Seq::empty())
        } else {
            (done, cur)
        }
    } else {
        (done, cur.push(c))
    }
}

pub open spec fn word_state(s: Seq<char>) -> (Seq<Seq<char>>, Seq<char>)
    decreases s.len(),
{
    if s.len() == 0 {
        (Seq::empty(), Seq::empty())
    } else {
        word_step(word_state(s.drop_last()), s.last())
    }
}

/// The maximal runs of non-whitespace characters of `s`.
pub open spec fn words(s: Seq<char>) -> Seq<Seq<char>> {
    let (done, cur) = word_state(s);
    if cur.len() > 0 {
        done.push(cur)
    } else {
        done
    }
}

// ---------------------------------------------------------------------------
// Greedy packing.
// ---------------------------------------------------------------------------

/// Close the chunk being built: keep it, trimmed, unless it is blank.
pub open spec fn flush(chunks: Seq<Seq<char>>, cur: Seq<char>) -> Seq<Seq<char>> {
    if trim(cur).len() > 0 {
        chunks.push(trim(cur))
    } else {
        chunks
    }
}

pub open spec fn piece_step(st: (Seq<Seq<char>>, Seq<char>), c: char, max: nat) -> (
    Seq<Seq<char>>,
    Seq<char>,
) {
    let (chunks, piece) = st;
    if piece.len() == max {
        (flush(chunks, piece), seq![c])
    } else {
        (chunks, piece.push(c))
    }
}

pub open spec fn piece_state(w: Seq<char>, max: nat) -> (Seq<Seq<char>>, Seq<char>)
    decreases w.len(),
{
    if w.len() == 0 {
        (Seq::empty(), Seq::empty())
    } else {
        piece_step(piece_state(w.drop_last(), max), w.last(), max)
    }
}

/// A word longer than `max` cut into consecutive pieces of `max` characters.
pub open spec fn pieces(w: Seq<char>, max: nat) -> Seq<Seq<char>> {
    let (chunks, piece) = piece_state(w, max);
    flush(chunks, piece)
}

pub open spec fn long_step(st: (Seq<Seq<char>>, Seq<char>), w: Seq<char>, max: nat) -> (
    Seq<Seq<char>>,
    Seq<char>,
) {
    let (chunks, cur) = st;
    if w.len() > max {
        (flush(chunks, cur) + pieces(w, max), Seq::empty())
    } else {
        let sep: int = if cur.len() > 0 { 1 } else { 0 };
        let full = cur.len() + sep + w.len() > max;
        let c1 = if full { flush(chunks, cur) } else { chunks };
        let cur1 = if full { Seq::<char>::empty() } else { cur };
        (c1, if cur1.len() > 0 { cur1.push(' ') + w } else { w })
    }
}

pub open spec fn long_state(ws: Seq<Seq<char>>, max: nat) -> (Seq<Seq<char>>, Seq<char>)
    decreases ws.len(),
{
    if ws.len() == 0 {
        (Seq::empty(), Seq::empty())
    } else {
        long_step(long_state(ws.drop_last(), max), ws.last(), max)
    }
}

/// A paragraph longer than `max` packed word by word, words joined by ' '.
pub open spec fn chunk_long(p: Seq<char>, max: nat) -> Seq<Seq<char>> {
    let (chunks, cur) = long_state(words(p), max);
    flush(chunks, cur)
}

pub open spec fn pack_step(st: (Seq<Seq<char>>, Seq<char>), p: Seq<char>, max: nat) -> (
    Seq<Seq<char>>,
    Seq<char>,
) {
    let (chunks, cur) = st;
    if p.len() > max {
        (flush(chunks, cur) + chunk_long(p, max), Seq::empty())
    } else {
        let sep: int = if cur.len() > 0 { 2 } else { 0 };
        let full = cur.len() + sep + p.len() > max;
        let c1 = if full { flush(chunks, cur) } else { chunks };
        let cur1 = if full { Seq::<char>::empty() } else { cur };
        (c1, if cur1.len() > 0 { cur1.push('\n').push('\n') + p } else { p })
    }
}

pub open spec fn pack_state(ps: Seq<Seq<char>>, max: nat) -> (Seq<Seq<char>>, Seq<char>)
    decreases ps.len(),
{
    if ps.len() == 0 {
        (Seq::empty(), Seq::empty())
    } else {
        pack_step(pack_state(ps.drop_last(), max), ps.last(), max)
    }
}

/// The chunks of `text`: paragraphs packed greedily, joined by "\n\n", with
/// over-long paragraphs packed word by word.
pub open spec fn chunks_of_text(text: Seq<char>, max: nat) -> Seq<Seq<char>> {
    let (chunks, cur) = pack_state(paragraphs(text), max);
    flush(chunks, cur)
}

// ---------------------------------------------------------------------------
// Executable splitting and packing.
// ---------------------------------------------------------------------------

proof fn lemma_chars_deep_view(v: &Vec<char>)
    ensures
        v.deep_view() == v@,
{
    assert(v.deep_view() =~= v@);
}

fn push_chunk(chunks: &mut Vec<Vec<char>>, c: Vec<char>)
    ensures
        final(chunks).deep_view() == old(chunks).deep_view().push(c@),
{
    let ghost c_view = c@;
    proof {
        lemma_chars_deep_view(&c);
    }
    chunks.push(c);
    assert(chunks.deep_view() =~= old(chunks).deep_view().push(c_view));
}

fn append_chunks(chunks: &mut Vec<Vec<char>>, more: Vec<Vec<char>>)
    ensures
        final(chunks).deep_view() == old(chunks).deep_view() + more.deep_view(),
{
    let ghost more_view = more.deep_view();
    let mut more = more;
    chunks.append(&mut more);
    assert(chunks.deep_view() =~= old(chunks).deep_view() + more_view);
}

/// Close the chunk being built (see [`flush`]), leaving it empty.
fn flush_chunk(chunks: &mut Vec<Vec<char>>, cur: &mut Vec<char>)
    ensures
        final(chunks).deep_view() == flush(old(chunks).deep_view(), old(cur)@),
        final(cur)@ == Seq::<char>::empty(),
{
    let t = trim_chars(cur);
    if t.len() > 0 {
        push_chunk(chunks, t);
    }
    *cur = Vec::new();
}

/// The pieces of `s` between occurrences of "\n\n".
pub fn split_paragraph_chars(s: &Vec<char>) -> (out: Vec<Vec<char>>)
    ensures
        out.deep_view() == split_paragraphs(s@),
{
    let mut pieces: Vec<Vec<char>> = Vec::new();
    let mut cur: Vec<char> = Vec::new();
    let mut pending = false;
    let mut i: usize = 0;
    while i < s.len()
        invariant
            i <= s.len(),
            (pieces.deep_view(), cur@, pending) == para_state(s@.take(i as int)),
        decreases s.len() - i,
    {
        let c = s[i];
        assert(s@.take(i + 1).drop_last() =~= s@.take(i as int));
        if c == '\n' {
            if pending {
                push_chunk(&mut pieces, cur);
                cur = Vec::new();
                pending = false;
            } else {
                pending = true;
            }
        } else {
            if pending {
                cur.push('\n');
            }
            cur.push(c);
            pending = false;
        }
        i = i + 1;
    }
    assert(s@.take(s.len() as int) =~= s@);
    if pending {
        cur.push('\n');
    }
    push_chunk(&mut pieces, cur);
    pieces
}

/// Trimmed non-empty paragraphs of `s`.
pub fn paragraph_chars(s: &Vec<char>) -> (out: Vec<Vec<char>>)
    ensures
        out.deep_view() == paragraphs(s@),
{
    let raw = split_paragraph_chars(s);
    let ghost rv = raw.deep_view();
    let ghost tr = rv.map_values(|p: Seq<char>| trim(p));
    let ghost keep = |p: Seq<char>| p.len() > 0;
    let mut out: Vec<Vec<char>> = Vec::new();
    let mut i: usize = 0;
    while i < raw.len()
        invariant
            i <= raw.len(),
            rv == raw.deep_view(),
            tr == rv.map_values(|p: Seq<char>| trim(p)),
            keep == (|p: Seq<char>| p.len() > 0),
            out.deep_view() == tr.take(i as int).filter(keep),
        decreases raw.len() - i,
    {
        let t = trim_chars(&raw[i]);
        proof {
            lemma_chars_deep_view(&raw[i as int]);
        }
        assert(tr.take(i + 1) =~= tr.take(i as int).push(t@));
        proof {
            reveal(Seq::filter);
            assert(tr.take(i + 1).drop_last() =~= tr.take(i as int));
        }
        if t.len() > 0 {
            push_chunk(&mut out, t);
        }
        i = i + 1;
    }
    assert(tr.take(raw.len() as int) =~= tr);
    out
}

/// The maximal runs of non-whitespace characters of `s`.
pub fn word_chars(s: &Vec<char>) -> (out: Vec<Vec<char>>)
    ensures
        out.deep_view() == words(s@),
{
    let mut done: Vec<Vec<char>> = Vec::new();
    let mut cur: Vec<char> = Vec::new();
    let mut i: usize = 0;
    while i < s.len()
        invariant
            i <= s.len(),
            (done.deep_view(), cur@) == word_state(s@.take(i as int)),
        decreases s.len() - i,
    {
        let c = s[i];
        assert(s@.take(i + 1).drop_last() =~= s@.take(i as int));
        if is_white_space(c) {
            if cur.len() > 0 {
                push_chunk(&mut done, cur);
                cur = Vec::new();
            }
        } else {
            cur.push(c);
        }
        i = i + 1;
    }
    assert(s@.take(s.len() as int) =~= s@);
    if cur.len() > 0 {
        push_chunk(&mut done, cur);
    }
    done
}

/// A word cut into pieces of `max` characters (see [`pieces`]).
fn word_pieces(w: &Vec<char>, max: usize) -> (out: Vec<Vec<char>>)
    ensures
        out.deep_view() == pieces(w@, max as nat),
{
    let mut chunks: Vec<Vec<char>> = Vec::new();
    let mut piece: Vec<char> = Vec::new();
    let mut i: usize = 0;
    while i < w.len()
        invariant
            i <= w.len(),
            (chunks.deep_view(), piece@) == piece_state(w@.take(i as int), max as nat),
        decreases w.len() - i,
    {
        let c = w[i];
        assert(w@.take(i + 1).drop_last() =~= w@.take(i as int));
        if piece.len() == max {
            flush_chunk(&mut chunks, &mut piece);
        }
        piece.push(c);
        proof {
            assert(seq![c] =~= Seq::<char>::empty().push(c));
        }
        i = i + 1;
    }
    assert(w@.take(w.len() as int) =~= w@);
    flush_chunk(&mut chunks, &mut piece);
    chunks
}

/// `a` followed by `b`.
fn extend_chars(a: &mut Vec<char>, b: &Vec<char>)
    ensures
        final(a)@ == old(a)@ + b@,
{
    let mut i: usize = 0;
    while i < b.len()
        invariant
            i <= b.len(),
            a@ == old(a)@ + b@.take(i as int),
        decreases b.len() - i,
    {
        a.push(b[i]);
        assert(b@.take(i + 1) =~= b@.take(i as int).push(b@[i as int]));
        i = i + 1;
    }
    assert(b@.take(b.len() as int) =~= b@);
}

/// An over-long paragraph packed word by word (see [`chunk_long`]).
fn chunk_long_chars(p: &Vec<char>, max: usize) -> (out: Vec<Vec<char>>)
    ensures
        out.deep_view() == chunk_long(p@, max as nat),
{
    let ws = word_chars(p);
    let ghost wv = ws.deep_view();
    let mut chunks: Vec<Vec<char>> = Vec::new();
    let mut cur: Vec<char> = Vec::new();
    let mut i: usize = 0;
    while i < ws.len()
        invariant
            i <= ws.len(),
            wv == ws.deep_view(),
            wv == words(p@),
            (chunks.deep_view(), cur@) == long_state(wv.take(i as int), max as nat),
        decreases ws.len() - i,
    {
        let w = &ws[i];
        assert(wv[i as int] == w@);
        assert(wv.take(i + 1).drop_last() =~= wv.take(i as int));
        assert(wv.take(i + 1).last() == w@);
        if w.len() > max {
            flush_chunk(&mut chunks, &mut cur);
            let ps = word_pieces(w, max);
            append_chunks(&mut chunks, ps);
        } else {
            let sep: usize = if cur.len() > 0 { 1 } else { 0 };
            if (cur.len() as u128) + (sep as u128) + (w.len() as u128) > max as u128 {
                flush_chunk(&mut chunks, &mut cur);
            }
            if cur.len() > 0 {
                cur.push(' ');
            }
            extend_chars(&mut cur, w);
            proof {
                assert(Seq::<char>::empty() + w@ =~= w@);
            }
        }
        i = i + 1;
    }
    assert(wv.take(ws.len() as int) =~= wv);
    flush_chunk(&mut chunks, &mut cur);
    chunks
}

/// The chunks of `text` (see [`chunks_of_text`]), as character vectors.
pub fn chunk_text_chars(text: &Vec<char>, max: usize) -> (out: Vec<Vec<char>>)
    ensures
        out.deep_view() == chunks_of_text(text@, max as nat),
{
    let ps = paragraph_chars(text);
    let ghost pv = ps.deep_view();
    let mut chunks: Vec<Vec<char>> = Vec::new();
    let mut cur: Vec<char> = Vec::new();
    let mut i: usize = 0;
    while i < ps.len()
        invariant
            i <= ps.len(),
            pv == ps.deep_view(),
            pv == paragraphs(text@),
            (chunks.deep_view(), cur@) == pack_state(pv.take(i as int), max as nat),
        decreases ps.len() - i,
    {
        let p = &ps[i];
        assert(pv[i as int] == p@);
        assert(pv.take(i + 1).drop_last() =~= pv.take(i as int));
        assert(pv.take(i + 1).last() == p@);
        if p.len() > max {
            flush_chunk(&mut chunks, &mut cur);
            let more = chunk_long_chars(p, max);
            append_chunks(&mut chunks, more);
        } else {
            let sep: usize = if cur.len() > 0 { 2 } else { 0 };
            if (cur.len() as u128) + (sep as u128) + (p.len() as u128) > max as u128 {
                flush_chunk(&mut chunks, &mut cur);
            }
            if cur.len() > 0 {
                cur.push('\n');
                cur.push('\n');
            }
            extend_chars(&mut cur, p);
            proof {
                assert(Seq::<char>::empty() + p@ =~= p@);
            }
        }
        i = i + 1;
    }
    assert(pv.take(ps.len() as int) =~= pv);
    flush_chunk(&mut chunks, &mut cur);
    chunks
}

// ---------------------------------------------------------------------------
// Sources.
// ---------------------------------------------------------------------------

/// An uploaded file attached to a knowledge source.
#[derive(Debug, Clone)]
pub struct NewKnowledgeFile {
    pub file_name: String,
    pub media_type: String,
    pub data: Vec<u8>,
}

/// A knowledge source to index: a note (`kind` "note") or a file (`kind`
/// "file").
#[derive(Debug, Clone)]
pub struct NewKnowledgeSource {
    pub title: String,
    pub kind: String,
    pub location: Option<String>,
    pub notes: Option<String>,
    pub file: Option<NewKnowledgeFile>,
}

/// Whether a file holds text, by media type or by file-name extension,
/// both compared without ASCII case.
pub open spec fn text_like(file_name: Seq<char>, media_type: Seq<char>) -> bool {
    let m = lower(media_type);
    let n = lower(file_name);
    ||| "text/"@.is_prefix_of(m)
    ||| m == "application/json"@
    ||| m == "application/yaml"@
    ||| m == "application/x-yaml"@
    ||| ".txt"@.is_suffix_of(n)
    ||| ".md"@.is_suffix_of(n)
    ||| ".markdown"@.is_suffix_of(n)
    ||| ".json"@.is_suffix_of(n)
    ||| ".yaml"@.is_suffix_of(n)
    ||| ".yml"@.is_suffix_of(n)
    ||| ".csv"@.is_suffix_of(n)
}

/// The text of a file: its bytes decoded as UTF-8 when it is text-like and
/// the bytes are valid UTF-8.
pub open spec fn file_text(f: NewKnowledgeFile) -> Option<Seq<char>> {
    if text_like(f.file_name@, f.media_type@) && valid_utf8(f.data@) {
        Some(decode_utf8(f.data@))
    } else {
        None
    }
}

/// The chunks indexed for a source: a note's text, or a text file's
/// contents; nothing for any other source.
pub open spec fn source_chunks(s: NewKnowledgeSource, max: nat) -> Seq<Seq<char>> {
    if s.kind@ == "note"@ {
        match s.notes {
            Some(n) => chunks_of_text(n@, max),
            None => Seq::empty(),
        }
    } else if s.kind@ == "file"@ {
        match s.file {
            Some(f) => match file_text(f) {
                Some(t) => chunks_of_text(t, max),
                None => Seq::empty(),
            },
            None => Seq::empty(),
        }
    } else {
        Seq::empty()
    }
}

/// A file is indexed as text when its media type, ignoring case, is
/// `text/...`, `application/json`, `application/yaml` or
/// `application/x-yaml`, or its name, ignoring case, ends in `.txt`, `.md`,
/// `.markdown`, `.json`, `.yaml`, `.yml` or `.csv`: then, when its bytes are
/// UTF-8, its chunks are those of its decoded text. Any other file, or one
/// whose bytes are not UTF-8, yields no chunks. In particular a file of
/// media type `application/json`, or named `....json`, is indexed.
pub proof fn law_text_files_are_indexed(s: NewKnowledgeSource, f: NewKnowledgeFile, max: nat)
    requires
        s.kind@ == "file"@,
        s.file == Some(f),
    ensures
        ({
            let m = lower(f.media_type@);
            let n = lower(f.file_name@);
            let listed = "text/"@.is_prefix_of(m) || m == "application/json"@ || m
                == "application/yaml"@ || m == "application/x-yaml"@ || ".txt"@.is_suffix_of(n)
                || ".md"@.is_suffix_of(n) || ".markdown"@.is_suffix_of(n) || ".json"@.is_suffix_of(
                n,
            ) || ".yaml"@.is_suffix_of(n) || ".yml"@.is_suffix_of(n) || ".csv"@.is_suffix_of(n);
            &&& listed && valid_utf8(f.data@) ==> source_chunks(s, max) == chunks_of_text(
                decode_utf8(f.data@),
                max,
            )
            &&& !(listed && valid_utf8(f.data@)) ==> source_chunks(s, max) == Seq::<Seq<char>>::empty()
        }),
        f.media_type@ == "application/json"@ && valid_utf8(f.data@) ==> source_chunks(s, max)
            == chunks_of_text(decode_utf8(f.data@), max),
        ".json"@.is_suffix_of(f.file_name@) && valid_utf8(f.data@) ==> source_chunks(s, max)
            == chunks_of_text(decode_utf8(f.data@), max),
{
    reveal_strlit("file");
    reveal_strlit("note");
    reveal_strlit("application/json");
    reveal_strlit(".json");
    assert("file"@[0] != "note"@[0]);
    if f.media_type@ == "application/json"@ {
        assert(lower(f.media_type@) =~= "application/json"@);
    }
    if ".json"@.is_suffix_of(f.file_name@) {
        let n = f.file_name@;
        let ln = lower(n);
        assert(ln.len() == n.len());
        assert forall|k: int| 0 <= k < 5 implies #[trigger] ln[n.len() - 5 + k] == ".json"@[k] by {
            assert(n.subrange(n.len() - 5, n.len() as int)[k] == ".json"@[k]);
            assert(n[n.len() - 5 + k] == ".json"@[k]);
        }
        assert(ln.subrange(ln.len() - 5, ln.len() as int) =~= ".json"@);
    }
}

/// Whether a file holds text (see [`text_like`]).
pub fn is_text_like_file(file_name: &str, media_type: &str) -> (r: bool)
    ensures
        r == text_like(file_name@, media_type@),
{
    let m = lower_chars(&chars_of(media_type));
    let n = lower_chars(&chars_of(file_name));
    starts_with(&m, &chars_of("text/")) || chars_eq(&m, &chars_of("application/json"))
        || chars_eq(&m, &chars_of("application/yaml")) || chars_eq(
        &m,
        &chars_of("application/x-yaml"),
    ) || ends_with(&n, &chars_of(".txt")) || ends_with(&n, &chars_of(".md")) || ends_with(
        &n,
        &chars_of(".markdown"),
    ) || ends_with(&n, &chars_of(".json")) || ends_with(&n, &chars_of(".yaml")) || ends_with(
        &n,
        &chars_of(".yml"),
    ) || ends_with(&n, &chars_of(".csv"))
}

/// `std::str::from_utf8`: the text of `bytes` when they are valid UTF-8.
#[verifier::external_body]
fn decode_utf8_text(bytes: &[u8]) -> (r: Option<String>)
    ensures
        r is Some <==> valid_utf8(bytes@),
        r matches Some(s) ==> s@ == decode_utf8(bytes@),
{
    std::str::from_utf8(bytes).ok().map(str::to_string)
}

/// The text of a file (see [`file_text`]).
pub fn text_from_file(file: &NewKnowledgeFile) -> (r: Option<String>)
    ensures
        r.deep_view() == file_text(*file),
{
    if !is_text_like_file(file.file_name.as_str(), file.media_type.as_str()) {
        return None;
    }
    decode_utf8_text(file.data.as_slice())
}

/// The chunks of `text` with at most `max_chars` characters each (see
/// [`chunks_of_text`]).
pub fn chunk_text(text: &str, max_chars: usize) -> (out: Vec<String>)
    ensures
        out.deep_view() == chunks_of_text(text@, max_chars as nat),
{
    let cs = chunk_text_chars(&chars_of(text), max_chars);
    let ghost cv = cs.deep_view();
    let mut out: Vec<String> = Vec::new();
    let mut i: usize = 0;
    while i < cs.len()
        invariant
            i <= cs.len(),
            cv == cs.deep_view(),
            out.deep_view() == cv.take(i as int),
        decreases cs.len() - i,
    {
        let s = string_of(&cs[i]);
        proof {
            lemma_chars_deep_view(&cs[i as int]);
        }
        let ghost sv = s@;
        assert(sv == cv[i as int]);
        let ghost before = out.deep_view();
        out.push(s);
        assert(out.deep_view() =~= before.push(sv));
        assert(cv.take(i + 1) =~= cv.take(i as int).push(sv));
        i = i + 1;
    }
    assert(cv.take(cs.len() as int) =~= cv);
    out
}

/// The chunks indexed for a source (see [`source_chunks`]), at the default
/// chunk size.
pub fn chunks_for_source(input: &NewKnowledgeSource) -> (out: Vec<String>)
    ensures
        out.deep_view() == source_chunks(*input, DEFAULT_CHUNK_MAX_CHARS as nat),
{
    if same_text(input.kind.as_str(), "note") {
        match &input.notes {
            Some(n) => chunk_text(n.as_str(), DEFAULT_CHUNK_MAX_CHARS),
            None => Vec::new(),
        }
    } else if same_text(input.kind.as_str(), "file") {
        match &input.file {
            Some(f) => match text_from_file(f) {
                Some(t) => chunk_text(t.as_str(), DEFAULT_CHUNK_MAX_CHARS),
                None => Vec::new(),
            },
            None => Vec::new(),
        }
    } else {
        Vec::new()
    }
}

// ---------------------------------------------------------------------------
// Laws.
// ---------------------------------------------------------------------------

/// Every chunk is non-empty and holds at most `max` characters.
pub open spec fn all_within(cs: Seq<Seq<char>>, max: nat) -> bool {
    forall|i: int| 0 <= i < cs.len() ==> 0 < #[trigger] cs[i].len() <= max
}

proof fn lemma_flush_within(chunks: Seq<Seq<char>>, cur: Seq<char>, max: nat)
    requires
        all_within(chunks, max),
        cur.len() <= max,
    ensures
        all_within(flush(chunks, cur), max),
{
    lemma_trim_shorter(cur);
    if trim(cur).len() > 0 {
        let r = chunks.push(trim(cur));
        assert forall|i: int| 0 <= i < r.len() implies 0 < #[trigger] r[i].len() <= max by {
            if i < chunks.len() {
                assert(r[i] == chunks[i]);
            }
        }
    }
}

proof fn lemma_concat_within(a: Seq<Seq<char>>, b: Seq<Seq<char>>, max: nat)
    requires
        all_within(a, max),
        all_within(b, max),
    ensures
        all_within(a + b, max),
{
    let r = a + b;
    assert forall|i: int| 0 <= i < r.len() implies 0 < #[trigger] r[i].len() <= max by {
        if i < a.len() {
            assert(r[i] == a[i]);
        } else {
            assert(r[i] == b[i - a.len()]);
        }
    }
}

proof fn lemma_piece_state_within(w: Seq<char>, max: nat)
    requires
        max >= 1,
    ensures
        all_within(piece_state(w, max).0, max),
        piece_state(w, max).1.len() <= max,
    decreases w.len(),
{
    if w.len() > 0 {
        lemma_piece_state_within(w.drop_last(), max);
        let st = piece_state(w.drop_last(), max);
        if st.1.len() == max {
            lemma_flush_within(st.0, st.1, max);
        }
    }
}

proof fn lemma_pieces_within(w: Seq<char>, max: nat)
    requires
        max >= 1,
    ensures
        all_within(pieces(w, max), max),
{
    lemma_piece_state_within(w, max);
    let st = piece_state(w, max);
    lemma_flush_within(st.0, st.1, max);
}

proof fn lemma_long_state_within(ws: Seq<Seq<char>>, max: nat)
    requires
        max >= 1,
    ensures
        all_within(long_state(ws, max).0, max),
        long_state(ws, max).1.len() <= max,
    decreases ws.len(),
{
    if ws.len() > 0 {
        lemma_long_state_within(ws.drop_last(), max);
        let st = long_state(ws.drop_last(), max);
        let w = ws.last();
        assert(long_state(ws, max) == long_step(st, w, max));
        lemma_flush_within(st.0, st.1, max);
        if w.len() > max {
            lemma_pieces_within(w, max);
            lemma_concat_within(flush(st.0, st.1), pieces(w, max), max);
        } else {
            let sep: int = if st.1.len() > 0 { 1 } else { 0 };
            if st.1.len() + sep + w.len() <= max {
                if st.1.len() > 0 {
                    assert((st.1.push(' ') + w).len() == st.1.len() + 1 + w.len());
                }
            } else {
                assert(long_step(st, w, max).1 == w);
            }
        }
    }
}

proof fn lemma_chunk_long_within(p: Seq<char>, max: nat)
    requires
        max >= 1,
    ensures
        all_within(chunk_long(p, max), max),
{
    lemma_long_state_within(words(p), max);
    let st = long_state(words(p), max);
    lemma_flush_within(st.0, st.1, max);
}

proof fn lemma_pack_state_within(ps: Seq<Seq<char>>, max: nat)
    requires
        max >= 1,
    ensures
        all_within(pack_state(ps, max).0, max),
        pack_state(ps, max).1.len() <= max,
    decreases ps.len(),
{
    if ps.len() > 0 {
        lemma_pack_state_within(ps.drop_last(), max);
        let st = pack_state(ps.drop_last(), max);
        let p = ps.last();
        assert(pack_state(ps, max) == pack_step(st, p, max));
        lemma_flush_within(st.0, st.1, max);
        if p.len() > max {
            lemma_chunk_long_within(p, max);
            lemma_concat_within(flush(st.0, st.1), chunk_long(p, max), max);
        } else {
            let sep: int = if st.1.len() > 0 { 2 } else { 0 };
            if st.1.len() + sep + p.len() <= max {
                if st.1.len() > 0 {
                    assert((st.1.push('\n').push('\n') + p).len() == st.1.len() + 2 + p.len());
                }
            } else {
                assert(pack_step(st, p, max).1 == p);
            }
        }
    }
}

/// Chunking never yields an empty chunk nor one longer than the limit, for
/// any limit of at least one character.
pub proof fn law_chunks_within_limit(text: Seq<char>, max: nat)
    requires
        max >= 1,
    ensures
        all_within(chunks_of_text(text, max), max),
{
    lemma_pack_state_within(paragraphs(text), max);
    let st = pack_state(paragraphs(text), max);
    lemma_flush_within(st.0, st.1, max);
}

// ---------------------------------------------------------------------------
// Chunking keeps the text: only whitespace is dropped or inserted.
// ---------------------------------------------------------------------------

/// The non-whitespace characters of all chunks, chunk after chunk.
pub open spec fn visible_all(ss: Seq<Seq<char>>) -> Seq<char>
    decreases ss.len(),
{
    if ss.len() == 0 {
        Seq::empty()
    } else {
        visible_all(ss.drop_last()) + visible(ss.last())
    }
}

proof fn lemma_visible_all_push(ss: Seq<Seq<char>>, s: Seq<char>)
    ensures
        visible_all(ss.push(s)) == visible_all(ss) + visible(s),
{
    assert(ss.push(s).drop_last() =~= ss);
}

proof fn lemma_visible_all_concat(a: Seq<Seq<char>>, b: Seq<Seq<char>>)
    ensures
        visible_all(a + b) == visible_all(a) + visible_all(b),
    decreases b.len(),
{
    if b.len() == 0 {
        assert(a + b =~= a);
        assert(visible_all(a) + visible_all(b) =~= visible_all(a));
    } else {
        lemma_visible_all_concat(a, b.drop_last());
        assert((a + b).drop_last() =~= a + b.drop_last());
        assert((a + b).last() == b.last());
        assert(visible_all(a) + visible_all(b.drop_last()) + visible(b.last()) =~= visible_all(a)
            + (visible_all(b.drop_last()) + visible(b.last())));
    }
}

proof fn lemma_flush_visible(chunks: Seq<Seq<char>>, cur: Seq<char>)
    ensures
        visible_all(flush(chunks, cur)) == visible_all(chunks) + visible(cur),
{
    lemma_visible_trim(cur);
    if trim(cur).len() > 0 {
        lemma_visible_all_push(chunks, trim(cur));
    } else {
        assert(trim(cur) =~= Seq::<char>::empty());
        assert(visible_all(chunks) + visible(cur) =~= visible_all(chunks));
    }
}

proof fn lemma_piece_state_visible(w: Seq<char>, max: nat)
    ensures
        visible_all(piece_state(w, max).0) + visible(piece_state(w, max).1) == visible(w),
    decreases w.len(),
{
    if w.len() > 0 {
        let prev = w.drop_last();
        let c = w.last();
        lemma_piece_state_visible(prev, max);
        assert(w =~= prev.push(c));
        lemma_visible_push(prev, c);
        let (chunks, piece) = piece_state(prev, max);
        let x = visible_all(chunks) + visible(piece);
        if piece.len() == max {
            lemma_flush_visible(chunks, piece);
            lemma_visible_push(Seq::<char>::empty(), c);
            assert(seq![c] =~= Seq::<char>::empty().push(c));
            assert(visible(Seq::<char>::empty()) =~= Seq::<char>::empty());
            if is_ws(c) {
                assert(x + visible(seq![c]) =~= x);
            } else {
                assert(x + visible(seq![c]) =~= x.push(c));
            }
        } else {
            lemma_visible_push(piece, c);
            if !is_ws(c) {
                assert(visible_all(chunks) + visible(piece).push(c) =~= x.push(c));
            }
        }
    }
}

proof fn lemma_pieces_visible(w: Seq<char>, max: nat)
    ensures
        visible_all(pieces(w, max)) == visible(w),
{
    lemma_piece_state_visible(w, max);
    let (chunks, piece) = piece_state(w, max);
    lemma_flush_visible(chunks, piece);
}

proof fn lemma_word_state_visible(s: Seq<char>)
    ensures
        visible_all(word_state(s).0) + visible(word_state(s).1) == visible(s),
    decreases s.len(),
{
    if s.len() > 0 {
        let prev = s.drop_last();
        let c = s.last();
        lemma_word_state_visible(prev);
        assert(s =~= prev.push(c));
        lemma_visible_push(prev, c);
        let (done, cur) = word_state(prev);
        if is_ws(c) {
            if cur.len() > 0 {
                lemma_visible_all_push(done, cur);
                assert(visible(Seq::<char>::empty()) =~= Seq::<char>::empty());
                assert(visible_all(done) + visible(cur) + Seq::<char>::empty() =~= visible_all(done)
                    + visible(cur));
            }
        } else {
            lemma_visible_push(cur, c);
            assert(visible_all(done) + visible(cur).push(c) =~= (visible_all(done) + visible(
                cur,
            )).push(c));
        }
    }
}

proof fn lemma_words_visible(s: Seq<char>)
    ensures
        visible_all(words(s)) == visible(s),
{
    lemma_word_state_visible(s);
    let (done, cur) = word_state(s);
    if cur.len() > 0 {
        lemma_visible_all_push(done, cur);
    } else {
        assert(cur =~= Seq::<char>::empty());
        assert(visible_all(done) + visible(cur) =~= visible_all(done));
    }
}

/// Joining `cur` and `w` with `sep` (whitespace) keeps both.
proof fn lemma_join_visible(cur: Seq<char>, sep: Seq<char>, w: Seq<char>)
    requires
        forall|j: int| 0 <= j < sep.len() ==> is_ws(#[trigger] sep[j]),
    ensures
        visible(cur + sep + w) == visible(cur) + visible(w),
{
    crate::text::lemma_visible_blank(sep);
    lemma_visible_concat(cur, sep);
    lemma_visible_concat(cur + sep, w);
    assert(visible(cur) + Seq::<char>::empty() =~= visible(cur));
}

proof fn lemma_long_state_visible(ws: Seq<Seq<char>>, max: nat)
    ensures
        visible_all(long_state(ws, max).0) + visible(long_state(ws, max).1) == visible_all(ws),
    decreases ws.len(),
{
    if ws.len() > 0 {
        let prev = ws.drop_last();
        let w = ws.last();
        lemma_long_state_visible(prev, max);
        let (chunks, cur) = long_state(prev, max);
        let e = Seq::<char>::empty();
        assert(visible(e) =~= e);
        if w.len() > max {
            lemma_flush_visible(chunks, cur);
            lemma_pieces_visible(w, max);
            lemma_visible_all_concat(flush(chunks, cur), pieces(w, max));
            assert(visible_all(flush(chunks, cur)) + visible_all(pieces(w, max)) + visible(e)
                =~= visible_all(chunks) + visible(cur) + visible(w));
        } else {
            let sep: int = if cur.len() > 0 { 1 } else { 0 };
            let full = cur.len() + sep + w.len() > max;
            if full {
                lemma_flush_visible(chunks, cur);
                assert(visible_all(flush(chunks, cur)) + visible(w) =~= visible_all(chunks)
                    + visible(cur) + visible(w));
            } else if cur.len() > 0 {
                assert(cur.push(' ') + w =~= cur + seq![' '] + w);
                lemma_join_visible(cur, seq![' '], w);
                assert(visible_all(chunks) + (visible(cur) + visible(w)) =~= visible_all(chunks)
                    + visible(cur) + visible(w));
            } else {
                assert(cur =~= e);
                assert(visible_all(chunks) + visible(w) =~= visible_all(chunks) + visible(cur)
                    + visible(w));
            }
        }
    }
}

proof fn lemma_chunk_long_visible(p: Seq<char>, max: nat)
    ensures
        visible_all(chunk_long(p, max)) == visible(p),
{
    lemma_long_state_visible(words(p), max);
    let (chunks, cur) = long_state(words(p), max);
    lemma_flush_visible(chunks, cur);
    lemma_words_visible(p);
}

proof fn lemma_pack_state_visible(ps: Seq<Seq<char>>, max: nat)
    ensures
        visible_all(pack_state(ps, max).0) + visible(pack_state(ps, max).1) == visible_all(ps),
    decreases ps.len(),
{
    if ps.len() > 0 {
        let prev = ps.drop_last();
        let p = ps.last();
        lemma_pack_state_visible(prev, max);
        let (chunks, cur) = pack_state(prev, max);
        let e = Seq::<char>::empty();
        assert(visible(e) =~= e);
        if p.len() > max {
            lemma_flush_visible(chunks, cur);
            lemma_chunk_long_visible(p, max);
            lemma_visible_all_concat(flush(chunks, cur), chunk_long(p, max));
            assert(visible_all(flush(chunks, cur)) + visible_all(chunk_long(p, max)) + visible(e)
                =~= visible_all(chunks) + visible(cur) + visible(p));
        } else {
            let sep: int = if cur.len() > 0 { 2 } else { 0 };
            let full = cur.len() + sep + p.len() > max;
            if full {
                lemma_flush_visible(chunks, cur);
                assert(visible_all(flush(chunks, cur)) + visible(p) =~= visible_all(chunks)
                    + visible(cur) + visible(p));
            } else if cur.len() > 0 {
                assert(cur.push('\n').push('\n') + p =~= cur + seq!['\n', '\n'] + p);
                lemma_join_visible(cur, seq!['\n', '\n'], p);
                assert(visible_all(chunks) + (visible(cur) + visible(p)) =~= visible_all(chunks)
                    + visible(cur) + visible(p));
            } else {
                assert(cur =~= e);
                assert(visible_all(chunks) + visible(p) =~= visible_all(chunks) + visible(cur)
                    + visible(p));
            }
        }
    }
}

proof fn lemma_para_state_visible(s: Seq<char>)
    ensures
        visible_all(para_state(s).0) + visible(para_state(s).1) == visible(s),
    decreases s.len(),
{
    if s.len() > 0 {
        let prev = s.drop_last();
        let c = s.last();
        lemma_para_state_visible(prev);
        assert(s =~= prev.push(c));
        lemma_visible_push(prev, c);
        let (ps, cur, pending) = para_state(prev);
        let e = Seq::<char>::empty();
        assert(visible(e) =~= e);
        if c == '\n' {
            if pending {
                lemma_visible_all_push(ps, cur);
                assert(visible_all(ps) + visible(cur) + e =~= visible_all(ps) + visible(cur));
            }
        } else {
            let base = if pending { cur.push('\n') } else { cur };
            lemma_visible_push(cur, '\n');
            lemma_visible_push(base, c);
            assert(visible_all(ps) + visible(base).push(c) =~= (visible_all(ps) + visible(
                base,
            )).push(c));
        }
    }
}

proof fn lemma_split_paragraphs_visible(s: Seq<char>)
    ensures
        visible_all(split_paragraphs(s)) == visible(s),
{
    lemma_para_state_visible(s);
    let (ps, cur, pending) = para_state(s);
    lemma_visible_push(cur, '\n');
    if pending {
        lemma_visible_all_push(ps, cur.push('\n'));
    } else {
        lemma_visible_all_push(ps, cur);
    }
}

proof fn lemma_trimmed_nonblank_visible(ps: Seq<Seq<char>>)
    ensures
        visible_all(nonblank_trims(ps)) == visible_all(ps),
    decreases ps.len(),
{
    reveal(Seq::filter);
    let q = trims(ps);
    if ps.len() > 0 {
        let prev = ps.drop_last();
        lemma_trimmed_nonblank_visible(prev);
        assert(q.drop_last() =~= trims(prev));
        let rest = nonblank(trims(prev));
        lemma_visible_trim(ps.last());
        assert(q.last() == trim(ps.last()));
        if q.last().len() > 0 {
            lemma_visible_all_push(rest, q.last());
        } else {
            assert(q.last() =~= Seq::<char>::empty());
            assert(visible_all(rest) + visible(ps.last()) =~= visible_all(rest));
        }
    } else {
        assert(nonblank(q) =~= Seq::<Seq<char>>::empty());
    }
}

/// Chunking loses no text and adds none: apart from whitespace, the chunks
/// read in order spell out exactly the indexed text, for any limit.
pub proof fn law_chunks_keep_text(text: Seq<char>, max: nat)
    ensures
        visible_all(chunks_of_text(text, max)) == visible(text),
{
    lemma_split_paragraphs_visible(text);
    lemma_trimmed_nonblank_visible(split_paragraphs(text));
    lemma_pack_state_visible(paragraphs(text), max);
    let (chunks, cur) = pack_state(paragraphs(text), max);
    lemma_flush_visible(chunks, cur);
}

// ---------------------------------------------------------------------------
// Chunks are trimmed, and paragraphs are packed greedily.
// ---------------------------------------------------------------------------

/// Every chunk is its own trim: no chunk starts or ends with whitespace.
pub open spec fn all_trimmed(cs: Seq<Seq<char>>) -> bool {
    forall|i: int| 0 <= i < cs.len() ==> trim(#[trigger] cs[i]) == cs[i]
}

proof fn lemma_flush_trimmed(chunks: Seq<Seq<char>>, cur: Seq<char>)
    requires
        all_trimmed(chunks),
    ensures
        all_trimmed(flush(chunks, cur)),
{
    lemma_trim_idempotent(cur);
    if trim(cur).len() > 0 {
        let r = chunks.push(trim(cur));
        assert forall|i: int| 0 <= i < r.len() implies trim(#[trigger] r[i]) == r[i] by {
            if i < chunks.len() {
                assert(r[i] == chunks[i]);
            }
        }
    }
}

proof fn lemma_concat_trimmed(a: Seq<Seq<char>>, b: Seq<Seq<char>>)
    requires
        all_trimmed(a),
        all_trimmed(b),
    ensures
        all_trimmed(a + b),
{
    let r = a + b;
    assert forall|i: int| 0 <= i < r.len() implies trim(#[trigger] r[i]) == r[i] by {
        if i < a.len() {
            assert(r[i] == a[i]);
        } else {
            assert(r[i] == b[i - a.len()]);
        }
    }
}

proof fn lemma_piece_state_trimmed(w: Seq<char>, max: nat)
    ensures
        all_trimmed(piece_state(w, max).0),
    decreases w.len(),
{
    if w.len() > 0 {
        lemma_piece_state_trimmed(w.drop_last(), max);
        let st = piece_state(w.drop_last(), max);
        lemma_flush_trimmed(st.0, st.1);
    }
}

proof fn lemma_long_state_trimmed(ws: Seq<Seq<char>>, max: nat)
    ensures
        all_trimmed(long_state(ws, max).0),
    decreases ws.len(),
{
    if ws.len() > 0 {
        lemma_long_state_trimmed(ws.drop_last(), max);
        let st = long_state(ws.drop_last(), max);
        let w = ws.last();
        lemma_flush_trimmed(st.0, st.1);
        if w.len() > max {
            lemma_piece_state_trimmed(w, max);
            let ps = piece_state(w, max);
            lemma_flush_trimmed(ps.0, ps.1);
            lemma_concat_trimmed(flush(st.0, st.1), pieces(w, max));
        }
    }
}

proof fn lemma_pack_state_trimmed(ps: Seq<Seq<char>>, max: nat)
    ensures
        all_trimmed(pack_state(ps, max).0),
    decreases ps.len(),
{
    if ps.len() > 0 {
        lemma_pack_state_trimmed(ps.drop_last(), max);
        let st = pack_state(ps.drop_last(), max);
        let p = ps.last();
        lemma_flush_trimmed(st.0, st.1);
        if p.len() > max {
            lemma_long_state_trimmed(words(p), max);
            let ls = long_state(words(p), max);
            lemma_flush_trimmed(ls.0, ls.1);
            lemma_concat_trimmed(flush(st.0, st.1), chunk_long(p, max));
        }
    }
}

/// No chunk starts or ends with whitespace.
pub proof fn law_chunks_trimmed(text: Seq<char>, max: nat)
    ensures
        all_trimmed(chunks_of_text(text, max)),
{
    lemma_pack_state_trimmed(paragraphs(text), max);
    let st = pack_state(paragraphs(text), max);
    lemma_flush_trimmed(st.0, st.1);
}

/// Neither end of `s` is whitespace.
pub open spec fn solid(s: Seq<char>) -> bool {
    s.len() > 0 && !is_ws(s[0]) && !is_ws(s.last())
}

proof fn lemma_paragraphs_solid(ps: Seq<Seq<char>>)
    ensures
        forall|i: int| 0 <= i < nonblank_trims(ps).len() ==> solid(#[trigger] nonblank_trims(ps)[i]),
    decreases ps.len(),
{
    reveal(Seq::filter);
    let q = trims(ps);
    let f = nonblank(q);
    if ps.len() > 0 {
        let prev = ps.drop_last();
        lemma_paragraphs_solid(prev);
        assert(q.drop_last() =~= trims(prev));
        let rest = nonblank(trims(prev));
        assert(nonblank(q.drop_last()) == rest);
        assert(q.last() == trim(ps.last()));
        lemma_trim_ends(ps.last());
        assert(f == if q.last().len() > 0 {
            rest.push(q.last())
        } else {
            rest
        });
        assert forall|i: int| 0 <= i < f.len() implies solid(#[trigger] f[i]) by {
            if i < rest.len() {
                assert(f[i] == rest[i]);
                assert(solid(nonblank_trims(prev)[i]));
            } else {
                assert(f[i] == q.last());
            }
        }
    }
}

/// Consecutive chunks are too long to have been one: together, with the
/// paragraph separator, they exceed the limit.
pub open spec fn packed_greedily(cs: Seq<Seq<char>>, max: nat) -> bool {
    forall|i: int| 0 <= i < cs.len() - 1 ==> #[trigger] cs[i].len() + 2 + cs[i + 1].len() > max
}

proof fn lemma_pack_state_greedy(ps: Seq<Seq<char>>, max: nat)
    requires
        forall|i: int| 0 <= i < ps.len() ==> solid(#[trigger] ps[i]) && ps[i].len() <= max,
    ensures
        ({
            let (chunks, cur) = pack_state(ps, max);
            &&& cur.len() == 0 <==> ps.len() == 0
            &&& cur.len() > 0 ==> solid(cur)
            &&& cur.len() <= max
            &&& packed_greedily(chunks, max)
            &&& chunks.len() > 0 ==> chunks.last().len() + 2 + cur.len() > max
        }),
    decreases ps.len(),
{
    if ps.len() > 0 {
        let prev = ps.drop_last();
        assert forall|i: int| 0 <= i < prev.len() implies solid(#[trigger] prev[i]) && prev[i].len()
            <= max by {
            assert(prev[i] == ps[i]);
        }
        lemma_pack_state_greedy(prev, max);
        let (chunks, cur) = pack_state(prev, max);
        let p = ps.last();
        assert(solid(ps[ps.len() - 1]));
        let sep: int = if cur.len() > 0 { 2 } else { 0 };
        if cur.len() + sep + p.len() > max {
            lemma_trim_fixed(cur);
            let c2 = chunks.push(cur);
            assert(flush(chunks, cur) == c2);
            assert forall|i: int| 0 <= i < c2.len() - 1 implies #[trigger] c2[i].len() + 2 + c2[i
                + 1].len() > max by {
                if i + 1 < chunks.len() {
                    assert(c2[i] == chunks[i] && c2[i + 1] == chunks[i + 1]);
                } else {
                    assert(c2[i] == chunks.last() && c2[i + 1] == cur);
                }
            }
        } else if cur.len() > 0 {
            let c = cur.push('\n').push('\n') + p;
            assert(c[0] == cur[0]);
            assert(c.last() == p.last());
            assert(c.len() == cur.len() + 2 + p.len());
        }
    }
}

/// Packing is greedy: when no paragraph is longer than the limit, a chunk
/// ends only where the next paragraph would not fit, so no two consecutive
/// chunks could have been joined within the limit.
pub proof fn law_chunks_packed_greedily(text: Seq<char>, max: nat)
    requires
        forall|i: int| 0 <= i < paragraphs(text).len() ==> #[trigger] paragraphs(text)[i].len() <= max,
    ensures
        packed_greedily(chunks_of_text(text, max), max),
{
    let ps = paragraphs(text);
    lemma_paragraphs_solid(split_paragraphs(text));
    lemma_pack_state_greedy(ps, max);
    let (chunks, cur) = pack_state(ps, max);
    if cur.len() > 0 {
        lemma_trim_fixed(cur);
        let c2 = chunks.push(cur);
        assert(flush(chunks, cur) == c2);
        assert forall|i: int| 0 <= i < c2.len() - 1 implies #[trigger] c2[i].len() + 2 + c2[i
            + 1].len() > max by {
            if i + 1 < chunks.len() {
                assert(c2[i] == chunks[i] && c2[i + 1] == chunks[i + 1]);
            } else {
                assert(c2[i] == chunks.last() && c2[i + 1] == cur);
            }
        }
    } else {
        assert(trim(cur).len() == 0) by {
            lemma_trim_shorter(cur);
        }
    }
}

} // verus!
