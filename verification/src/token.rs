//! Bearer tokens.

use vstd::prelude::*;

#[allow(unused_imports)]
use crate::proxy::{
    first_value, listed_token_is_admitted, AdmissionView, ProxyStateView, RequestHeadView,
};
#[allow(unused_imports)]
use vstd::utf8::{
    decode_utf8, encode_utf8, encode_utf8_decode_utf8, is_ascii_chars, is_ascii_chars_encode_utf8,
    is_char_boundary, is_char_boundary_iff_not_is_continuation_byte,
    is_char_boundary_start_end_of_seq, encode_utf8_first_scalar, encode_utf8_valid_utf8,
    pop_first_scalar,
};

verus! {

/// How many characters of a token are drawn at random.
pub const RANDOM_CHARS: usize = 48;

/// How many characters there are to draw from: the digits and the small letters.
pub const ALPHABET: usize = 36;

/// How many bytes of a token are shown where it is not shown in full.
pub const PREVIEW_BYTES: usize = 22;

/// The character that a number below [`ALPHABET`] stands for.
pub open spec fn token_char(i: usize) -> char {
    if i < 10 {
        ('0' as int + i) as char
    } else {
        ('a' as int + i - 10) as char
    }
}

/// The token for a draw of numbers.
pub open spec fn token_text(draw: Seq<usize>) -> Seq<char> {
    "sk-"@ + draw.map_values(|i: usize| token_char(i))
}

/// Whether every number of a draw stands for a character.
pub open spec fn in_alphabet(draw: Seq<usize>) -> bool {
    forall|k: int| 0 <= k < draw.len() ==> (#[trigger] draw[k]) < ALPHABET
}

/// Whether a text is `sk-`, followed by 48 digits and small letters.
pub open spec fn is_token(t: Seq<char>) -> bool {
    &&& t.len() == 3 + RANDOM_CHARS
    &&& t.take(3) == "sk-"@
    &&& forall|k: int|
        3 <= k < t.len() ==> ('0' <= #[trigger] t[k] <= '9' || 'a' <= t[k] <= 'z')
}

/// Calls `gen_range(0..bound)` on the generator that `rand::thread_rng` hands out: some
/// number below the bound. Which one is a matter of chance. The range must not be empty.
#[verifier::external_body]
fn random_below(bound: usize) -> (r: usize)
    requires
        bound > 0,
    ensures
        r < bound,
{
    rand::Rng::gen_range(&mut rand::thread_rng(), 0..bound)
}

/// Writes the token for a draw.
pub fn token_from(draw: &Vec<usize>) -> (r: String)
    requires
        in_alphabet(draw@),
    ensures
        r@ == token_text(draw@),
{
    let mut r = "sk-".to_owned();
    let mut k: usize = 0;
    proof {
        assert(r@ =~= "sk-"@ + draw@.take(0).map_values(|i: usize| token_char(i)));
    }
    while k < draw.len()
        invariant
            k <= draw@.len(),
            in_alphabet(draw@),
            r@ == "sk-"@ + draw@.take(k as int).map_values(|i: usize| token_char(i)),
        decreases draw@.len() - k,
    {
        let i = draw[k];
        let ghost before = r@;
        let c: char = if i < 10 {
            (48u8 + i as u8) as char
        } else {
            (97u8 + (i - 10) as u8) as char
        };
        r.push(c);
        proof {
            assert(c == token_char(i));
            assert(r@ =~= "sk-"@ + draw@.take(k + 1).map_values(|i: usize| token_char(i)));
        }
        k = k + 1;
    }
    proof {
        assert(draw@.take(k as int) =~= draw@);
    }
    r
}

/// Makes a new token, drawn at random.
pub fn generate_token() -> (r: String)
    ensures
        is_token(r@),
{
    let mut draw: Vec<usize> = Vec::new();
    while draw.len() < RANDOM_CHARS
        invariant
            draw@.len() <= RANDOM_CHARS,
            in_alphabet(draw@),
        decreases RANDOM_CHARS - draw@.len(),
    {
        draw.push(random_below(ALPHABET));
    }
    proof {
        token_text_is_token(draw@);
    }
    token_from(&draw)
}

/// The token for a full draw has the form of a token.
pub proof fn token_text_is_token(draw: Seq<usize>)
    requires
        draw.len() == RANDOM_CHARS,
        in_alphabet(draw),
    ensures
        is_token(token_text(draw)),
{
    reveal_strlit("sk-");
    let t = token_text(draw);
    assert(t.take(3) =~= "sk-"@);
    assert forall|k: int| 3 <= k < t.len() implies ('0' <= #[trigger] t[k] <= '9' || 'a' <= t[k]
        <= 'z') by {
        assert(t[k] == token_char(draw[k - 3]));
    }
}

/// Different draws give different tokens.
pub proof fn draws_are_told_apart(a: Seq<usize>, b: Seq<usize>)
    requires
        in_alphabet(a),
        in_alphabet(b),
        token_text(a) == token_text(b),
    ensures
        a == b,
{
    reveal_strlit("sk-");
    assert(a.len() == token_text(a).len() - 3);
    assert(b.len() == token_text(b).len() - 3);
    assert forall|k: int| 0 <= k < a.len() implies a[k] == b[k] by {
        assert(token_text(a)[k + 3] == token_char(a[k]));
        assert(token_text(b)[k + 3] == token_char(b[k]));
    }
    assert(a =~= b);
}

/// A generated token that is in the list lets a request through that presents it, where
/// there is an upstream URL.
pub proof fn generated_token_is_admitted(
    state: ProxyStateView,
    head: RequestHeadView,
    token: Seq<char>,
)
    requires
        is_token(token),
        state.upstream_url.len() > 0,
        state.tokens.contains(token),
        head.method != "OPTIONS"@,
        first_value(head.headers, "authorization"@) == Some(encode_utf8("Bearer "@ + token)),
    ensures
        state.admission(head) is Forward,
{
    reveal_strlit("sk-");
    assert forall|i: int| 0 <= i < token.len() implies (' ' <= #[trigger] token[i] <= '~'
        || token[i] == '\u{9}') by {
        if i < 3 {
            assert(token[i] == token.take(3)[i]);
        }
    }
    listed_token_is_admitted(state, head, token);
}

/// How many bytes of a token its preview shows.
pub open spec fn preview_cut(token: Seq<char>) -> int {
    if encode_utf8(token).len() <= PREVIEW_BYTES {
        encode_utf8(token).len() as int
    } else {
        PREVIEW_BYTES as int
    }
}

/// Whether the preview of a token ends between two characters.
pub open spec fn has_preview(token: Seq<char>) -> bool {
    is_char_boundary(encode_utf8(token), preview_cut(token))
}

/// The preview of a token: its first bytes and an ellipsis.
pub open spec fn preview(token: Seq<char>) -> Seq<char> {
    decode_utf8(encode_utf8(token).subrange(0, preview_cut(token))) + "\u{2026}"@
}

/// Whether a token has a preview.
pub fn can_preview(token: &str) -> (r: bool)
    ensures
        r == has_preview(token@),
{
    token.is_char_boundary(cut_of(token))
}

fn cut_of(token: &str) -> (r: usize)
    ensures
        r == preview_cut(token@),
{
    let n: usize = token.as_bytes().len();
    if n < PREVIEW_BYTES {
        n
    } else {
        PREVIEW_BYTES
    }
}

/// The preview of a token.
pub fn token_preview(token: &str) -> (r: String)
    requires
        has_preview(token@),
    ensures
        r@ == preview(token@),
{
    let cut = cut_of(token);
    let (start, _) = token.split_at(cut);
    proof {
        encode_utf8_decode_utf8(start@);
    }
    let mut r = start.to_owned();
    r.append("\u{2026}");
    r
}

/// The preview of a token of ASCII characters shows the first 22 of them, or all where
/// there are fewer.
pub proof fn ascii_preview(token: Seq<char>)
    requires
        is_ascii_chars(token),
    ensures
        has_preview(token),
        preview(token) == token.take(
            if token.len() <= PREVIEW_BYTES {
                token.len() as int
            } else {
                PREVIEW_BYTES as int
            },
        ) + "\u{2026}"@,
{
    let bytes = encode_utf8(token);
    is_ascii_chars_encode_utf8(token);
    encode_utf8_valid_utf8(token);
    let cut = preview_cut(token);
    let start = token.take(cut);
    assert(is_ascii_chars(start));
    is_ascii_chars_encode_utf8(start);
    assert(encode_utf8(start) =~= bytes.subrange(0, cut)) by {
        assert forall|i: int| 0 <= i < cut implies encode_utf8(start)[i] == bytes[i] by {
            assert(start[i] == token[i]);
        }
    }
    encode_utf8_decode_utf8(start);
    is_char_boundary_start_end_of_seq(bytes);
    if cut < bytes.len() {
        assert(bytes[cut] == token[cut] as u8);
        is_char_boundary_iff_not_is_continuation_byte(bytes, cut);
    }
}

/// A token is `sk-` and, for each number of the draw in its order, the character at that place
/// in `0` to `9` followed by `a` to `z`.
pub proof fn token_spells_the_draw(draw: Seq<usize>, k: int)
    requires
        in_alphabet(draw),
        0 <= k < draw.len(),
    ensures
        token_text(draw).len() == draw.len() + 3,
        token_text(draw)[0] == 's',
        token_text(draw)[1] == 'k',
        token_text(draw)[2] == '-',
        draw[k] < 10 ==> token_text(draw)[k + 3] as int == draw[k] + 48,
        10 <= draw[k] < 36 ==> token_text(draw)[k + 3] as int == draw[k] + 87,
{
    reveal_strlit("sk-");
    assert(token_text(draw)[k + 3] == token_char(draw[k]));
}

/// Every number below 36 stands for a character.
pub proof fn numbers_stand_for_characters(draw: Seq<usize>)
    requires
        forall|k: int| 0 <= k < draw.len() ==> (#[trigger] draw[k]) < 36,
    ensures
        in_alphabet(draw),
{
}

/// What has the form of a token is 51 characters long: `sk-`, then digits and small letters.
pub proof fn form_of_a_token(t: Seq<char>, k: int)
    requires
        is_token(t),
    ensures
        t.len() == 51,
        t[0] == 's' && t[1] == 'k' && t[2] == '-',
        3 <= k < 51 ==> '0' <= t[k] <= '9' || 'a' <= t[k] <= 'z',
        ALPHABET == 36,
{
    reveal_strlit("sk-");
    let start = t.take(3);
    assert(start[0] == t[0] && start[1] == t[1] && start[2] == t[2]);
}

/// The bytes of a text are those of its parts.
proof fn bytes_of_parts(a: Seq<char>, b: Seq<char>)
    ensures
        encode_utf8(a + b) == encode_utf8(a) + encode_utf8(b),
    decreases a.len(),
{
    if a.len() == 0 {
        assert(a + b =~= b);
        assert(encode_utf8(a) + encode_utf8(b) =~= encode_utf8(b));
    } else {
        bytes_of_parts(a.drop_first(), b);
        assert((a + b).drop_first() =~= a.drop_first() + b);
        assert((a + b)[0] == a[0]);
        assert(encode_utf8(a + b) =~= encode_utf8(a) + encode_utf8(b));
    }
}

/// Between two parts of a text is a place between two characters.
proof fn parts_meet_between_characters(a: Seq<char>, b: Seq<char>)
    ensures
        is_char_boundary(encode_utf8(a + b), encode_utf8(a).len() as int),
    decreases a.len(),
{
    let all = a + b;
    encode_utf8_valid_utf8(all);
    if a.len() > 0 {
        encode_utf8_first_scalar(all);
        encode_utf8_first_scalar(a);
        bytes_of_parts(a, b);
        parts_meet_between_characters(a.drop_first(), b);
        assert(all.drop_first() =~= a.drop_first() + b);
        assert(all[0] == a[0]);
        assert(pop_first_scalar(encode_utf8(all)) =~= encode_utf8(all.drop_first()));
    }
}

/// The preview of a token is what its first 22 bytes hold, or all of it where there are no
/// more, and an ellipsis.
pub proof fn preview_is_the_start(start: Seq<char>, rest: Seq<char>)
    requires
        encode_utf8(start).len() == 22 || (encode_utf8(start).len() < 22 && rest.len() == 0),
    ensures
        has_preview(start + rest),
        preview(start + rest) == start.push('\u{2026}'),
{
    reveal_strlit("\u{2026}");
    bytes_of_parts(start, rest);
    parts_meet_between_characters(start, rest);
    encode_utf8_decode_utf8(start);
    let bytes = encode_utf8(start + rest);
    assert(bytes.subrange(0, encode_utf8(start).len() as int) =~= encode_utf8(start));
    assert(preview(start + rest) =~= start.push('\u{2026}'));
}

} // verus!
