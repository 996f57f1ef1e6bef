use vstd::prelude::*;
use vstd::slice::slice_subrange;

verus! {

/// One corner of a face of a mesh: where its position, its texture
/// coordinate and, if it has one, its normal stand in the lists of the mesh,
/// counted from 0.
#[derive(Clone, Copy, Debug, PartialEq, Eq, Structural)]
pub struct Corner {
    pub vertex: usize,
    pub texture: usize,
    pub normal: Option<usize>,
}

/// The byte that separates the indices of a corner.
pub const SLASH: u8 = 47;

/// The byte of the digit zero; the other digits follow it.
pub const ZERO: u8 = 48;

/// `text` is one decimal digit or more.
pub open spec fn is_digits(text: Seq<u8>) -> bool {
    &&& text.len() > 0
    &&& forall|i: int| 0 <= i < text.len() ==> ZERO <= #[trigger] text[i] <= ZERO + 9
}

/// The number that the decimal digits `text` spell.
pub open spec fn decimal(text: Seq<u8>) -> int
    decreases text.len(),
{
    if text.len() == 0 {
        0
    } else {
        decimal(text.drop_last()) * 10 + (text.last() - ZERO)
    }
}

/// The index that `text` names: `text` spells a number from 1 on, in
/// decimal digits, and names the index one below it.
pub open spec fn index_named(text: Seq<u8>) -> Option<usize> {
    if is_digits(text) && 1 <= decimal(text) <= usize::MAX {
        Some((decimal(text) - 1) as usize)
    } else {
        None
    }
}

/// How many bytes stand before the first slash of `text`; the length of
/// `text` if it has none.
pub open spec fn before_slash(text: Seq<u8>) -> int
    decreases text.len(),
{
    if text.len() == 0 || text[0] == SLASH {
        0
    } else {
        1 + before_slash(text.drop_first())
    }
}

/// The corner that `token` describes: two or three indices with a slash
/// between them, for position, texture coordinate and normal.
pub open spec fn corner_described(token: Seq<u8>) -> Option<Corner> {
    let i = before_slash(token);
    if i >= token.len() {
        None
    } else {
        let rest = token.subrange(i + 1, token.len() as int);
        let j = before_slash(rest);
        let vertex = index_named(token.subrange(0, i));
        if j >= rest.len() {
            match (vertex, index_named(rest)) {
                (Some(vertex), Some(texture)) => Some(Corner { vertex, texture, normal: None }),
                _ => None,
            }
        } else {
            match (
                vertex,
                index_named(rest.subrange(0, j)),
                index_named(rest.subrange(j + 1, rest.len() as int)),
            ) {
                (Some(vertex), Some(texture), Some(normal)) => Some(
                    Corner { vertex, texture, normal: Some(normal) },
                ),
                _ => None,
            }
        }
    }
}

/// A numeral does not spell a smaller number than its beginning does.
proof fn lemma_decimal_grows(text: Seq<u8>, n: int)
    requires
        0 <= n <= text.len(),
        forall|i: int| 0 <= i < text.len() ==> ZERO <= #[trigger] text[i] <= ZERO + 9,
    ensures
        0 <= decimal(text.subrange(0, n)) <= decimal(text),
    decreases text.len(),
{
    if text.len() == 0 {
        assert(text.subrange(0, n) =~= text);
    } else {
        let shorter = text.drop_last();
        lemma_decimal_grows(shorter, shorter.len() as int);
        assert(shorter.subrange(0, shorter.len() as int) =~= shorter);
        assert(decimal(text) == decimal(shorter) * 10 + (text.last() - ZERO));
        if n == text.len() {
            assert(text.subrange(0, n) =~= text);
        } else {
            lemma_decimal_grows(shorter, n);
            assert(shorter.subrange(0, n) =~= text.subrange(0, n));
        }
    }
}

/// `before_slash` finds the first slash: no byte before it is a slash, and
/// the byte at it is one unless the text has ended.
proof fn lemma_before_slash(text: Seq<u8>)
    ensures
        0 <= before_slash(text) <= text.len(),
        forall|k: int| 0 <= k < before_slash(text) ==> text[k] != SLASH,
        before_slash(text) < text.len() ==> text[before_slash(text)] == SLASH,
    decreases text.len(),
{
    if text.len() == 0 || text[0] == SLASH {
    } else {
        let tail = text.drop_first();
        lemma_before_slash(tail);
        assert forall|k: int| 0 <= k < before_slash(text) implies text[k] != SLASH by {
            if k > 0 {
                assert(text[k] == tail[k - 1]);
            }
        }
        if before_slash(text) < text.len() {
            assert(text[before_slash(text)] == tail[before_slash(tail)]);
        }
    }
}

/// The first slash is where the first slash is: a position with a slash,
/// or the end, before which no slash stands.
proof fn lemma_before_slash_is(text: Seq<u8>, at: int)
    requires
        0 <= at <= text.len(),
        forall|k: int| 0 <= k < at ==> text[k] != SLASH,
        at < text.len() ==> text[at] == SLASH,
    ensures
        before_slash(text) == at,
{
    lemma_before_slash(text);
}

/// Reads the index that the bytes of `token` from `from` up to `to` name.
fn parse_index(token: &[u8], from: usize, to: usize) -> (r: Option<usize>)
    requires
        from <= to <= token@.len(),
    ensures
        r == index_named(token@.subrange(from as int, to as int)),
{
    let ghost text = token@.subrange(from as int, to as int);
    if from == to {
        return None;
    }
    let mut value: usize = 0;
    let mut i: usize = from;
    while i < to
        invariant
            from <= i <= to <= token@.len(),
            text == token@.subrange(from as int, to as int),
            forall|k: int| 0 <= k < i - from ==> ZERO <= #[trigger] text[k] <= ZERO + 9,
            value == decimal(text.subrange(0, i - from)),
        decreases to - i,
    {
        let byte: u8 = token[i];
        if byte < ZERO || byte > ZERO + 9 {
            assert(text[i - from] == byte);
            return None;
        }
        let digit: usize = (byte - ZERO) as usize;
        proof {
            let upto = text.subrange(0, i - from + 1);
            assert(upto.drop_last() =~= text.subrange(0, i - from));
            assert(upto.last() == byte);
            assert(decimal(upto) == value * 10 + digit);
        }
        if value > (usize::MAX - digit) / 10 {
            proof {
                assert(value * 10 + digit > usize::MAX);
                if is_digits(text) {
                    lemma_decimal_grows(text, i - from + 1);
                }
            }
            return None;
        }
        value = value * 10 + digit;
        i += 1;
    }
    assert(text.subrange(0, i - from) =~= text);
    if value == 0 {
        None
    } else {
        Some(value - 1)
    }
}

/// The position of the first slash of `token` from `from` on; the length of
/// `token` if there is none.
fn find_slash(token: &[u8], from: usize) -> (at: usize)
    requires
        from <= token@.len(),
    ensures
        from <= at <= token@.len(),
        at - from == before_slash(token@.subrange(from as int, token@.len() as int)),
{
    let ghost text = token@.subrange(from as int, token@.len() as int);
    let mut at: usize = from;
    while at < token.len() && token[at] != SLASH
        invariant
            from <= at <= token@.len(),
            text == token@.subrange(from as int, token@.len() as int),
            forall|k: int| 0 <= k < at - from ==> text[k] != SLASH,
        decreases token@.len() - at,
    {
        at += 1;
    }
    proof {
        lemma_before_slash_is(text, at - from);
    }
    at
}

/// Reads one corner of a face.
///
/// There is a corner exactly for the tokens that `corner_described` gives
/// one for.
pub fn parse_corner(token: &[u8]) -> (r: Option<Corner>)
    ensures
        r == corner_described(token@),
{
    let len: usize = token.len();
    let i: usize = find_slash(token, 0);
    assert(token@.subrange(0, len as int) =~= token@);
    if i >= len {
        return None;
    }
    let ghost rest = token@.subrange(i + 1, len as int);
    let second: usize = find_slash(token, i + 1);
    let ghost j = second - (i + 1);
    let vertex = parse_index(token, 0, i);
    if second >= len {
        let texture = parse_index(token, i + 1, len);
        match (vertex, texture) {
            (Some(vertex), Some(texture)) => Some(Corner { vertex, texture, normal: None }),
            _ => None,
        }
    } else {
        let texture = parse_index(token, i + 1, second);
        let normal = parse_index(token, second + 1, len);
        proof {
            assert(rest.subrange(0, j) =~= token@.subrange(i + 1, second as int));
            assert(rest.subrange(j + 1, rest.len() as int) =~= token@.subrange(
                second + 1,
                len as int,
            ));
        }
        match (vertex, texture, normal) {
            (Some(vertex), Some(texture), Some(normal)) => Some(
                Corner { vertex, texture, normal: Some(normal) },
            ),
            _ => None,
        }
    }
}

/// The byte of the letter that begins the line of a face.
pub const FACE: u8 = 102;

/// Whether `byte` separates the words of a line: a space, a tab, a line
/// feed, a form feed or a carriage return.
pub open spec fn is_blank(byte: u8) -> bool {
    byte == 32 || byte == 9 || byte == 10 || byte == 12 || byte == 13
}

/// How many bytes stand before the first blank of `text`; the length of
/// `text` if it has none.
pub open spec fn word_len(text: Seq<u8>) -> int
    decreases text.len(),
{
    if text.len() == 0 || is_blank(text[0]) {
        0
    } else {
        1 + word_len(text.drop_first())
    }
}

/// The words of `text`: its longest runs of bytes that are not blank, in
/// order.
pub open spec fn words(text: Seq<u8>) -> Seq<Seq<u8>>
    decreases text.len(),
{
    if text.len() == 0 {
        Seq::empty()
    } else if is_blank(text[0]) {
        words(text.drop_first())
    } else {
        proof {
            lemma_word_len(text);
        }
        let n = word_len(text);
        seq![text.subrange(0, n)] + words(text.subrange(n, text.len() as int))
    }
}

/// The face that `line` describes: the letter `f` and three corners, with
/// blanks between them.
pub open spec fn face_described(line: Seq<u8>) -> Option<Seq<Corner>> {
    let w = words(line);
    if w.len() == 4 && w[0] == seq![FACE] && corner_described(w[1]) is Some && corner_described(
        w[2],
    ) is Some && corner_described(w[3]) is Some {
        Some(
            seq![
                corner_described(w[1])->0,
                corner_described(w[2])->0,
                corner_described(w[3])->0,
            ],
        )
    } else {
        None
    }
}

/// The first word ends at the first blank: no byte before its end is a
/// blank, and the byte at its end is one unless the text has ended.
pub proof fn lemma_word_len(text: Seq<u8>)
    ensures
        0 <= word_len(text) <= text.len(),
        text.len() > 0 && !is_blank(text[0]) ==> word_len(text) >= 1,
        forall|k: int| 0 <= k < word_len(text) ==> !is_blank(#[trigger] text[k]),
        word_len(text) < text.len() ==> is_blank(text[word_len(text)]),
    decreases text.len(),
{
    if text.len() == 0 || is_blank(text[0]) {
    } else {
        let tail = text.drop_first();
        lemma_word_len(tail);
        assert forall|k: int| 0 <= k < word_len(text) implies !is_blank(#[trigger] text[k]) by {
            if k > 0 {
                assert(text[k] == tail[k - 1]);
            }
        }
        if word_len(text) < text.len() {
            assert(text[word_len(text)] == tail[word_len(tail)]);
        }
    }
}

/// The first word is as long as the run of bytes up to the first blank.
proof fn lemma_word_len_is(text: Seq<u8>, n: int)
    requires
        0 <= n <= text.len(),
        forall|k: int| 0 <= k < n ==> !is_blank(#[trigger] text[k]),
        n < text.len() ==> is_blank(text[n]),
    ensures
        word_len(text) == n,
{
    lemma_word_len(text);
    let m = word_len(text);
    if m < n {
        assert(!is_blank(text[m]));
    } else if n < m {
        assert(!is_blank(text[n]));
    }
}

/// Blanks in front of a text do not change its words.
proof fn lemma_words_skip_blanks(text: Seq<u8>, n: int)
    requires
        0 <= n <= text.len(),
        forall|k: int| 0 <= k < n ==> is_blank(#[trigger] text[k]),
    ensures
        words(text) == words(text.subrange(n, text.len() as int)),
    decreases n,
{
    if n == 0 {
        assert(text.subrange(0, text.len() as int) =~= text);
    } else {
        let tail = text.drop_first();
        assert(is_blank(text[0]));
        assert forall|k: int| 0 <= k < n - 1 implies is_blank(#[trigger] tail[k]) by {
            assert(tail[k] == text[k + 1]);
        }
        lemma_words_skip_blanks(tail, n - 1);
        assert(tail.subrange(n - 1, tail.len() as int) =~= text.subrange(n, text.len() as int));
    }
}

/// Finds the first word of `line` from `from` on: where it begins and where
/// it ends, or nothing if only blanks are left.
fn next_word(line: &[u8], from: usize) -> (r: Option<(usize, usize)>)
    requires
        from <= line@.len(),
    ensures
        match r {
            None => words(line@.subrange(from as int, line@.len() as int)) == Seq::<
                Seq<u8>,
            >::empty(),
            Some((begin, end)) => {
                &&& from <= begin < end <= line@.len()
                &&& words(line@.subrange(from as int, line@.len() as int)) == seq![
                    line@.subrange(begin as int, end as int),
                ] + words(line@.subrange(end as int, line@.len() as int))
            },
        },
{
    let len: usize = line.len();
    let ghost text = line@.subrange(from as int, len as int);
    let mut begin: usize = from;
    while begin < len && (line[begin] == 32 || line[begin] == 9 || line[begin] == 10 || line[begin]
        == 12 || line[begin] == 13)
        invariant
            from <= begin <= len == line@.len(),
            forall|k: int| from <= k < begin ==> is_blank(#[trigger] line@[k]),
        decreases len - begin,
    {
        begin += 1;
    }
    let ghost rest = line@.subrange(begin as int, len as int);
    proof {
        assert forall|k: int| 0 <= k < begin - from implies is_blank(#[trigger] text[k]) by {
            assert(text[k] == line@[from + k]);
        }
        lemma_words_skip_blanks(text, begin - from);
        assert(text.subrange(begin - from, text.len() as int) =~= rest);
    }
    if begin >= len {
        return None;
    }
    let mut end: usize = begin + 1;
    while end < len && !(line[end] == 32 || line[end] == 9 || line[end] == 10 || line[end] == 12
        || line[end] == 13)
        invariant
            begin < end <= len == line@.len(),
            forall|k: int| begin <= k < end ==> !is_blank(#[trigger] line@[k]),
        decreases len - end,
    {
        end += 1;
    }
    proof {
        assert forall|k: int| 0 <= k < end - begin implies !is_blank(#[trigger] rest[k]) by {
            assert(rest[k] == line@[begin + k]);
        }
        if end < len {
            assert(rest[end - begin] == line@[end as int]);
        }
        lemma_word_len_is(rest, end - begin);
        assert(rest.subrange(0, end - begin) =~= line@.subrange(begin as int, end as int));
        assert(rest.subrange(end - begin, rest.len() as int) =~= line@.subrange(
            end as int,
            len as int,
        ));
    }
    Some((begin, end))
}

/// Reads the line of a face.
///
/// There is a face exactly for the lines that `face_described` gives one
/// for: the letter `f` and three corners. A face of more corners than three
/// is refused.
pub fn parse_face(line: &[u8]) -> (r: Option<[Corner; 3]>)
    ensures
        r is Some <==> face_described(line@) is Some,
        r is Some ==> r->0@ == face_described(line@)->0,
{
    let len: usize = line.len();
    proof {
        assert(line@.subrange(0, len as int) =~= line@);
    }
    let (b0, e0) = match next_word(line, 0) {
        Some(word) => word,
        None => {
            return None;
        },
    };
    let (b1, e1) = match next_word(line, e0) {
        Some(word) => word,
        None => {
            return None;
        },
    };
    let (b2, e2) = match next_word(line, e1) {
        Some(word) => word,
        None => {
            return None;
        },
    };
    let (b3, e3) = match next_word(line, e2) {
        Some(word) => word,
        None => {
            return None;
        },
    };
    let more = next_word(line, e3);
    proof {
        let w = words(line@);
        let w1 = words(line@.subrange(e0 as int, len as int));
        let w2 = words(line@.subrange(e1 as int, len as int));
        let w3 = words(line@.subrange(e2 as int, len as int));
        let w4 = words(line@.subrange(e3 as int, len as int));
        assert(w3 =~= seq![line@.subrange(b3 as int, e3 as int)] + w4);
        assert(w2 =~= seq![line@.subrange(b2 as int, e2 as int)] + w3);
        assert(w1 =~= seq![line@.subrange(b1 as int, e1 as int)] + w2);
        assert(w =~= seq![line@.subrange(b0 as int, e0 as int)] + w1);
        assert(w.len() == 4 + w4.len());
        assert(w[0] == line@.subrange(b0 as int, e0 as int));
        assert(w[1] == line@.subrange(b1 as int, e1 as int));
        assert(w[2] == line@.subrange(b2 as int, e2 as int));
        assert(w[3] == line@.subrange(b3 as int, e3 as int));
    }
    if more.is_some() {
        return None;
    }
    if e0 - b0 != 1 || line[b0] != FACE {
        proof {
            let head = line@.subrange(b0 as int, e0 as int);
            if head == seq![FACE] {
                assert(head.len() == 1);
                assert(head[0] == FACE);
            }
        }
        return None;
    }
    assert(line@.subrange(b0 as int, e0 as int) =~= seq![FACE]);
    let first = parse_corner(slice_subrange(line, b1, e1));
    let second = parse_corner(slice_subrange(line, b2, e2));
    let third = parse_corner(slice_subrange(line, b3, e3));
    match (first, second, third) {
        (Some(first), Some(second), Some(third)) => {
            let face = [first, second, third];
            assert(face@ =~= seq![first, second, third]);
            Some(face)
        },
        _ => None,
    }
}

} // verus!
