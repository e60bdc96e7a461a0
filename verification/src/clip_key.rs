//! The text keys under which frames, requests and decoders of a clip are kept.
use crate::text::{self, chars_of, ends_with, parse_unsigned, push_decimal, rfind};
use crate::types::{VideoClip, VideoClipData};
use vstd::prelude::*;

verus! {

/// The key of the stretch of `path` that starts at `start`, is `length` samples long and reads
/// the file from `offset`: the four parts in this order, with colons between them.
pub open spec fn clip_key_text(path: Seq<char>, start: usize, length: usize, offset: usize) -> Seq<
    char,
> {
    path.push(':') + text::decimal(start as nat).push(':') + text::decimal(length as nat).push(':')
        + text::decimal(offset as nat)
}

/// The key of a clip as the workspace shows it.
pub open spec fn clip_text(clip: VideoClip) -> Seq<char> {
    clip_key_text(clip.path@, clip.start, clip.length, clip.offset)
}

/// The key of a clip as a decoder gets it.
pub open spec fn clip_data_text(clip: VideoClipData) -> Seq<char> {
    clip_key_text(clip.path@, clip.start, clip.length, clip.offset)
}

/// The key of a clip decoded at a sample rate, which is given by the bits of its float.
pub open spec fn clip_cache_text(clip: VideoClipData, sample_rate: u64) -> Seq<char> {
    clip_data_text(clip).push(':') + text::decimal(sample_rate as nat)
}

/// The path, start, length and offset that `key` writes: what stands behind its last three
/// colons is read as numbers, and all before them is the path.
pub open spec fn parsed_clip_key(key: Seq<char>) -> Option<(Seq<char>, usize, usize, usize)> {
    let third = text::last_position(key, ':');
    if third < 0 {
        None
    } else {
        let second = text::last_position(key.take(third), ':');
        if second < 0 {
            None
        } else {
            let first = text::last_position(key.take(second), ':');
            if first < 0 {
                None
            } else {
                match (
                    text::unsigned_value(key.subrange(first + 1, second)),
                    text::unsigned_value(key.subrange(second + 1, third)),
                    text::unsigned_value(key.skip(third + 1)),
                ) {
                    (Some(start), Some(length), Some(offset)) => Some(
                        (key.take(first), start, length, offset),
                    ),
                    _ => None,
                }
            }
        }
    }
}

/// Whether a frame kept under `key` may be shown for `clip`: the same stretch of a file whose
/// path ends with the clip's path.
pub open spec fn key_serves_clip(key: Seq<char>, clip: VideoClip) -> bool {
    match parsed_clip_key(key) {
        Some((path, start, length, offset)) => {
            &&& start == clip.start
            &&& length == clip.length
            &&& offset == clip.offset
            &&& clip.path@.is_suffix_of(path)
        },
        None => false,
    }
}

fn render_key(path: &str, start: usize, length: usize, offset: usize) -> (key: String)
    ensures
        key@ == clip_key_text(path@, start, length, offset),
{
    proof {
        reveal_strlit(":");
    }
    let mut key: String = path.to_owned();
    key.append(":");
    push_decimal(&mut key, start as u64);
    key.append(":");
    push_decimal(&mut key, length as u64);
    key.append(":");
    push_decimal(&mut key, offset as u64);
    assert(key@ =~= clip_key_text(path@, start, length, offset));
    key
}

/// The key of a clip as the workspace shows it.
pub fn clip_key(clip: &VideoClip) -> (key: String)
    ensures
        key@ == clip_text(*clip),
{
    render_key(clip.path.as_str(), clip.start, clip.length, clip.offset)
}

/// The key of a clip as a decoder gets it.
pub fn clip_data_key(clip: &VideoClipData) -> (key: String)
    ensures
        key@ == clip_data_text(*clip),
{
    render_key(clip.path.as_str(), clip.start, clip.length, clip.offset)
}

/// The key of the decoder of a clip at a sample rate, which is given by the bits of its float.
pub fn clip_cache_key(clip: &VideoClipData, sample_rate: u64) -> (key: String)
    ensures
        key@ == clip_cache_text(*clip, sample_rate),
{
    proof {
        reveal_strlit(":");
    }
    let mut key: String = clip_data_key(clip);
    key.append(":");
    push_decimal(&mut key, sample_rate);
    assert(key@ =~= clip_cache_text(*clip, sample_rate));
    key
}

fn parse_part(chars: &Vec<char>, from: usize, to: usize) -> (value: Option<usize>)
    requires
        from <= to <= chars.len(),
    ensures
        value == text::unsigned_value(chars@.subrange(from as int, to as int)),
{
    parse_unsigned(&chars.as_slice()[from..to])
}

/// The path, start, length and offset that `clip_key` writes, where it writes them.
pub fn parse_clip_key(clip_key: &str) -> (parts: Option<(&str, usize, usize, usize)>)
    ensures
        match parts {
            Some((path, start, length, offset)) => parsed_clip_key(clip_key@) == Some(
                (path@, start, length, offset),
            ),
            None => parsed_clip_key(clip_key@) is None,
        },
{
    let chars: Vec<char> = chars_of(clip_key);
    proof {
        text::lemma_last_position(chars@, ':');
        assert(chars@.take(chars@.len() as int) =~= chars@);
    }
    let third: usize = match rfind(&chars, chars.len(), ':') {
        Some(third) => third,
        None => return None,
    };
    proof {
        text::lemma_last_position(chars@.take(third as int), ':');
    }
    let offset: Option<usize> = parse_part(&chars, third + 1, chars.len());
    assert(chars@.subrange(third + 1, chars@.len() as int) == chars@.skip(third + 1));
    let second: usize = match rfind(&chars, third, ':') {
        Some(second) => second,
        None => return None,
    };
    proof {
        text::lemma_last_position(chars@.take(second as int), ':');
    }
    let length: Option<usize> = parse_part(&chars, second + 1, third);
    let first: usize = match rfind(&chars, second, ':') {
        Some(first) => first,
        None => return None,
    };
    let start: Option<usize> = parse_part(&chars, first + 1, second);
    match (start, length, offset) {
        (Some(start), Some(length), Some(offset)) => {
            let path: &str = clip_key.substring_char(0, first);
            assert(path@ =~= chars@.take(first as int));
            Some((path, start, length, offset))
        },
        _ => None,
    }
}

/// Whether a file asked for by `request_path` is the one that a clip names by `clip_path`: a clip
/// may name it relative to its session.
pub fn clip_paths_match(request_path: &str, clip_path: &str) -> (matching: bool)
    ensures
        matching == clip_path@.is_suffix_of(request_path@),
{
    ends_with(request_path, clip_path)
}

/// Whether a frame kept under `key` may be shown for `clip`.
pub fn key_matches_clip(key: &str, clip: &VideoClip) -> (matching: bool)
    ensures
        matching == key_serves_clip(key@, *clip),
{
    match parse_clip_key(key) {
        Some((path, start, length, offset)) => start == clip.start && length == clip.length
            && offset == clip.offset && clip_paths_match(path, clip.path.as_str()),
        None => false,
    }
}

/// Reading a clip key back gives the parts it was made of.
pub proof fn clip_key_reads_back(path: Seq<char>, start: usize, length: usize, offset: usize)
    ensures
        parsed_clip_key(clip_key_text(path, start, length, offset)) == Some(
            (path, start, length, offset),
        ),
{
    let s = text::decimal(start as nat);
    let l = text::decimal(length as nat);
    let o = text::decimal(offset as nat);
    text::lemma_decimal(start as nat);
    text::lemma_decimal(length as nat);
    text::lemma_decimal(offset as nat);
    let key = clip_key_text(path, start, length, offset);
    let head2 = path.push(':') + s.push(':') + l;
    let head1 = path.push(':') + s;
    assert(key =~= head2.push(':') + o);
    text::lemma_last_position_append(head2, ':', o);
    assert(key.take(head2.len() as int) =~= head1.push(':') + l);
    text::lemma_last_position_append(head1, ':', l);
    assert(key.take(head1.len() as int) =~= path.push(':') + s);
    text::lemma_last_position_append(path, ':', s);
    assert(key.take(path.len() as int) =~= path);
    assert(key.subrange(path.len() as int + 1, head1.len() as int) =~= s);
    assert(key.subrange(head1.len() as int + 1, head2.len() as int) =~= l);
    assert(key.skip(head2.len() as int + 1) =~= o);
    text::decimal_reads_back(start);
    text::decimal_reads_back(length);
    text::decimal_reads_back(offset);
}

/// Clips with the same key are the same stretch of the same file.
pub proof fn clip_key_names_one_clip(a: VideoClipData, b: VideoClipData)
    requires
        clip_data_text(a) == clip_data_text(b),
    ensures
        a.path@ == b.path@,
        a.start == b.start,
        a.length == b.length,
        a.offset == b.offset,
{
    clip_key_reads_back(a.path@, a.start, a.length, a.offset);
    clip_key_reads_back(b.path@, b.start, b.length, b.offset);
}

/// Decoders with the same key decode the same clip at the same sample rate.
pub proof fn cache_key_names_one_decoder(
    a: VideoClipData,
    rate_a: u64,
    b: VideoClipData,
    rate_b: u64,
)
    requires
        clip_cache_text(a, rate_a) == clip_cache_text(b, rate_b),
    ensures
        a.path@ == b.path@,
        a.start == b.start,
        a.length == b.length,
        a.offset == b.offset,
        rate_a == rate_b,
{
    let ra = text::decimal(rate_a as nat);
    let rb = text::decimal(rate_b as nat);
    text::lemma_decimal(rate_a as nat);
    text::lemma_decimal(rate_b as nat);
    let key = clip_cache_text(a, rate_a);
    text::lemma_last_position_append(clip_data_text(a), ':', ra);
    text::lemma_last_position_append(clip_data_text(b), ':', rb);
    let at = clip_data_text(a).len() as int;
    assert(key.take(at) =~= clip_data_text(a));
    assert(key.take(at) =~= clip_data_text(b));
    assert(key.skip(at + 1) =~= ra);
    assert(key.skip(at + 1) =~= rb);
    clip_key_names_one_clip(a, b);
}

/// The frame that a clip itself asked for serves it.
pub proof fn own_key_serves_clip(clip: VideoClip)
    ensures
        key_serves_clip(clip_text(clip), clip),
{
    clip_key_reads_back(clip.path@, clip.start, clip.length, clip.offset);
    assert(clip.path@.subrange(0, clip.path@.len() as int) =~= clip.path@);
}

/// A clip that names its file relative to a session is served by the frame of the same stretch
/// of the file's full path.
pub proof fn session_path_serves_clip(session: Seq<char>, clip: VideoClip)
    ensures
        key_serves_clip(
            clip_key_text(session.push('/') + clip.path@, clip.start, clip.length, clip.offset),
            clip,
        ),
{
    let path = session.push('/') + clip.path@;
    clip_key_reads_back(path, clip.start, clip.length, clip.offset);
    assert(clip.path@ =~= path.subrange(path.len() - clip.path@.len(), path.len() as int));
}

/// A clip key is the path, the start, the length and the offset in this order, the numbers in
/// decimal, with a colon between each two.
pub proof fn clip_key_joins_its_parts(clip: VideoClip, data: VideoClipData)
    ensures
        clip_text(clip) == clip.path@ + seq![':'] + text::decimal(clip.start as nat) + seq![':']
            + text::decimal(clip.length as nat) + seq![':'] + text::decimal(clip.offset as nat),
        clip_data_text(data) == data.path@ + seq![':'] + text::decimal(data.start as nat) + seq![':']
            + text::decimal(data.length as nat) + seq![':'] + text::decimal(data.offset as nat),
{
    assert(clip_text(clip) =~= clip.path@ + seq![':'] + text::decimal(clip.start as nat) + seq![':']
        + text::decimal(clip.length as nat) + seq![':'] + text::decimal(clip.offset as nat));
    assert(clip_data_text(data) =~= data.path@ + seq![':'] + text::decimal(data.start as nat)
        + seq![':'] + text::decimal(data.length as nat) + seq![':'] + text::decimal(
        data.offset as nat,
    ));
}

/// The key of a decoder is the key of its clip and the bits of its sample rate in decimal, with a
/// colon between them.
pub proof fn cache_key_joins_its_parts(clip: VideoClipData, sample_rate: u64)
    ensures
        clip_cache_text(clip, sample_rate) == clip_data_text(clip) + seq![':'] + text::decimal(
            sample_rate as nat,
        ),
{
    assert(clip_cache_text(clip, sample_rate) =~= clip_data_text(clip) + seq![':'] + text::decimal(
        sample_rate as nat,
    ));
}

/// Four parts with colons between them are read as a clip key exactly where the last three, which
/// hold no colon, can be read as numbers; the first is the path and may hold colons.
pub proof fn joined_parts_are_read(path: Seq<char>, a: Seq<char>, b: Seq<char>, c: Seq<char>)
    requires
        !a.contains(':'),
        !b.contains(':'),
        !c.contains(':'),
    ensures
        ({
            let key = path + seq![':'] + a + seq![':'] + b + seq![':'] + c;
            let start = text::unsigned_value(a);
            let length = text::unsigned_value(b);
            let offset = text::unsigned_value(c);
            &&& parsed_clip_key(key) is Some <==> start is Some && length is Some && offset is Some
            &&& parsed_clip_key(key) is Some ==> parsed_clip_key(key) == Some(
                (path, start->0, length->0, offset->0),
            )
        }),
{
    let key = path + seq![':'] + a + seq![':'] + b + seq![':'] + c;
    let head2 = path.push(':') + a.push(':') + b;
    let head1 = path.push(':') + a;
    assert forall|i: int| 0 <= i < a.len() implies a[i] != ':' by {
        assert(a.contains(a[i]));
    }
    assert forall|i: int| 0 <= i < b.len() implies b[i] != ':' by {
        assert(b.contains(b[i]));
    }
    assert forall|i: int| 0 <= i < c.len() implies c[i] != ':' by {
        assert(c.contains(c[i]));
    }
    assert(key =~= head2.push(':') + c);
    text::lemma_last_position_append(head2, ':', c);
    assert(key.take(head2.len() as int) =~= head1.push(':') + b);
    text::lemma_last_position_append(head1, ':', b);
    assert(key.take(head1.len() as int) =~= path.push(':') + a);
    text::lemma_last_position_append(path, ':', a);
    assert(key.take(path.len() as int) =~= path);
    assert(key.subrange(path.len() as int + 1, head1.len() as int) =~= a);
    assert(key.subrange(head1.len() as int + 1, head2.len() as int) =~= b);
    assert(key.skip(head2.len() as int + 1) =~= c);
}

/// What is read as a clip key consists of its path and three numbers, with colons between them.
pub proof fn read_key_has_four_parts(key: Seq<char>) -> (parts: (Seq<char>, Seq<char>, Seq<char>))
    requires
        parsed_clip_key(key) is Some,
    ensures
        parsed_clip_key(key) matches Some((path, start, length, offset)) && {
            &&& key == path + seq![':'] + parts.0 + seq![':'] + parts.1 + seq![':'] + parts.2
            &&& text::unsigned_value(parts.0) == Some(start)
            &&& text::unsigned_value(parts.1) == Some(length)
            &&& text::unsigned_value(parts.2) == Some(offset)
        },
{
    let third = text::last_position(key, ':');
    text::lemma_last_position(key, ':');
    let second = text::last_position(key.take(third), ':');
    text::lemma_last_position(key.take(third), ':');
    let first = text::last_position(key.take(second), ':');
    text::lemma_last_position(key.take(second), ':');
    let parts = (
        key.subrange(first + 1, second),
        key.subrange(second + 1, third),
        key.skip(third + 1),
    );
    assert(key[first] == ':' && key[second] == ':' && key[third] == ':');
    assert(key =~= key.take(first) + seq![':'] + parts.0 + seq![':'] + parts.1 + seq![':']
        + parts.2);
    parts
}

/// A key serves a clip exactly where it writes the clip's start, length and offset, and a path that
/// ends with the clip's path.
pub proof fn key_serves_same_stretch(
    path: Seq<char>,
    start: usize,
    length: usize,
    offset: usize,
    clip: VideoClip,
)
    ensures
        key_serves_clip(clip_key_text(path, start, length, offset), clip) <==> {
            &&& start == clip.start
            &&& length == clip.length
            &&& offset == clip.offset
            &&& path.len() >= clip.path@.len()
            &&& path.skip(path.len() - clip.path@.len()) == clip.path@
        },
{
    clip_key_reads_back(path, start, length, offset);
    if path.len() >= clip.path@.len() {
        assert(path.skip(path.len() - clip.path@.len()) =~= path.subrange(
            path.len() - clip.path@.len(),
            path.len() as int,
        ));
    }
}

/// A key that cannot be read serves no clip, and one that can serves at most the stretch that it
/// writes.
pub proof fn unread_key_serves_no_clip(key: Seq<char>, clip: VideoClip)
    ensures
        parsed_clip_key(key) is None ==> !key_serves_clip(key, clip),
        key_serves_clip(key, clip) ==> (parsed_clip_key(key) matches Some(
            (path, start, length, offset),
        ) && start == clip.start && length == clip.length && offset == clip.offset),
{
}

} // verus!
