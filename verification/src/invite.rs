//! Room invite codes of the form `INV-XXXX-XXXX`: making them and reading them out of links.
use vstd::prelude::*;
use vstd::string::*;
use vstd::utf8::*;
use rand::Rng;
use crate::error::AppError;
use crate::service::RetrospectService;
use crate::text::digit_char;

verus! {

/// An ASCII letter or digit.
pub open spec fn is_alnum_byte(b: u8) -> bool {
    (48 <= b && b <= 57) || (65 <= b && b <= 90) || (97 <= b && b <= 122)
}

/// `INV-` followed by four letters or digits, `-`, and four letters or digits: the only byte
/// strings that split on `-` into `INV` and two four-character alphanumeric parts while
/// being 13 bytes long.
pub open spec fn valid_code_bytes(c: Seq<u8>) -> bool {
    &&& c.len() == 13
    &&& c[0] == 73u8 && c[1] == 78u8 && c[2] == 86u8 && c[3] == 45u8
    &&& forall|i: int| 4 <= i < 8 ==> is_alnum_byte(#[trigger] c[i])
    &&& c[8] == 45u8
    &&& forall|i: int| 9 <= i < 13 ==> is_alnum_byte(#[trigger] c[i])
}

/// Whether `pat` occurs in `b` at position `i`.
pub open spec fn occurs_at(b: Seq<u8>, pat: Seq<u8>, i: int) -> bool {
    0 <= i && i + pat.len() <= b.len() && b.subrange(i, i + pat.len()) == pat
}

/// First position where `pat` occurs in `b` (what `str::find` returns).
pub open spec fn find_first(b: Seq<u8>, pat: Seq<u8>) -> Option<int> {
    if exists|i: int| occurs_at(b, pat, i) {
        Some(choose|i: int| occurs_at(b, pat, i) && forall|j: int| 0 <= j < i ==> !occurs_at(b, pat, j))
    } else {
        None
    }
}

pub open spec fn inv_prefix() -> Seq<u8> {
    seq![73u8, 78u8, 86u8, 45u8]
}

pub open spec fn code_key() -> Seq<u8> {
    seq![99u8, 111u8, 100u8, 101u8, 61u8]
}

/// Result of the first rule: the 13 bytes from the first `INV-`, when they form a code.
pub open spec fn code_from_prefix(b: Seq<u8>) -> Option<Seq<u8>> {
    match find_first(b, inv_prefix()) {
        Some(p) => if p + 13 <= b.len() && valid_code_bytes(b.subrange(p, p + 13)) {
            Some(b.subrange(p, p + 13))
        } else {
            None
        },
        None => None,
    }
}

/// The value after the first `code=`, up to the next `&` or the end.
pub open spec fn code_param(b: Seq<u8>) -> Option<Seq<u8>> {
    match find_first(b, code_key()) {
        Some(p) => {
            let after = b.subrange(p + 5, b.len() as int);
            match find_first(after, seq![38u8]) {
                Some(e) => Some(after.subrange(0, e)),
                None => Some(after),
            }
        },
        None => None,
    }
}

/// The code an invite link carries: the first `INV-` code in it, else a valid `code=` value.
pub open spec fn extracted_code(b: Seq<u8>) -> Option<Seq<u8>> {
    match code_from_prefix(b) {
        Some(c) => Some(c),
        None => match code_param(b) {
            Some(c) => if valid_code_bytes(c) {
                Some(c)
            } else {
                None
            },
            None => None,
        },
    }
}

/// The link cuts a character in two where a code would be cut out after `INV-`.
pub open spec fn cuts_character(b: Seq<u8>) -> bool {
    match find_first(b, inv_prefix()) {
        Some(p) => p + 13 < b.len() && is_continuation_byte(b[p + 13]),
        None => false,
    }
}

fn find_bytes(b: &[u8], pat: &[u8], from: usize) -> (r: Option<usize>)
    requires
        pat@.len() > 0,
        from <= b@.len(),
    ensures
        r matches Some(i) ==> from <= i && occurs_at(b@, pat@, i as int) && forall|j: int|
            from <= j < i ==> !occurs_at(b@, pat@, j),
        r is None ==> forall|j: int| from <= j ==> !occurs_at(b@, pat@, j),
{
    let n = b.len();
    let m = pat.len();
    if m > n {
        return None;
    }
    let mut i: usize = from;
    while i <= n - m
        invariant
            from <= i,
            m == pat@.len(),
            n == b@.len(),
            m <= n,
            forall|j: int| from <= j < i ==> !occurs_at(b@, pat@, j),
        decreases n - i,
    {
        let mut k: usize = 0;
        let mut same = true;
        while k < m
            invariant
                k <= m,
                i + m <= n,
                m == pat@.len(),
                n == b@.len(),
                same <==> forall|t: int| 0 <= t < k ==> b@[i + t] == pat@[t],
            decreases m - k,
        {
            if b[i + k] != pat[k] {
                same = false;
            }
            k = k + 1;
        }
        if same {
            assert(b@.subrange(i as int, i + m) =~= pat@);
            return Some(i);
        } else {
            assert(!occurs_at(b@, pat@, i as int)) by {
                let t = choose|t: int| 0 <= t < m && b@[i + t] != pat@[t];
                if b@.subrange(i as int, i + m) == pat@ {
                    assert(b@.subrange(i as int, i + m)[t] == b@[i + t]);
                }
            }
        }
        i = i + 1;
    }
    proof {
        assert forall|j: int| from <= j implies !occurs_at(b@, pat@, j) by {
            if j >= i {
                assert(j + m > n);
            }
        }
    }
    None
}

proof fn lemma_find_first(b: Seq<u8>, pat: Seq<u8>, r: Option<usize>)
    requires
        r matches Some(i) ==> occurs_at(b, pat, i as int) && forall|j: int|
            0 <= j < i ==> !occurs_at(b, pat, j),
        r is None ==> forall|j: int| 0 <= j ==> !occurs_at(b, pat, j),
    ensures
        find_first(b, pat) == match r {
            Some(i) => Some(i as int),
            None => None::<int>,
        },
{
    if let Some(i) = r {
        assert(occurs_at(b, pat, i as int));
        let c = choose|c: int| occurs_at(b, pat, c) && forall|j: int| 0 <= j < c ==> !occurs_at(b, pat, j);
        if c < i {
        } else if c > i {
            assert(!occurs_at(b, pat, i as int));
        }
    }
}

fn is_alnum(b: u8) -> (r: bool)
    ensures
        r == is_alnum_byte(b),
{
    (48 <= b && b <= 57) || (65 <= b && b <= 90) || (97 <= b && b <= 122)
}

fn valid_code_slice(c: &[u8]) -> (r: bool)
    ensures
        r == valid_code_bytes(c@),
{
    if c.len() != 13 {
        return false;
    }
    if !(c[0] == 73 && c[1] == 78 && c[2] == 86 && c[3] == 45 && c[8] == 45) {
        return false;
    }
    let mut i: usize = 4;
    while i < 13
        invariant
            4 <= i <= 13,
            c@.len() == 13,
            forall|j: int| 4 <= j < i && j != 8 ==> is_alnum_byte(#[trigger] c@[j]),
        decreases 13 - i,
    {
        if i != 8 && !is_alnum(c[i]) {
            return false;
        }
        i = i + 1;
    }
    true
}

impl RetrospectService {
    /// Whether `code` has the invite-code form `INV-XXXX-XXXX` (X a letter or digit).
    pub fn is_valid_invite_code(code: &str) -> (r: bool)
        ensures
            r == valid_code_bytes(code.spec_bytes()),
    {
        valid_code_slice(code.as_bytes())
    }

    /// Whether reading a code out of `invite_url` would cut a character in two: the byte 13
    /// places after the first `INV-` continues a multi-byte character. Such a link cannot be
    /// passed to `extract_invite_code`.
    pub fn invite_link_cuts_character(invite_url: &str) -> (r: bool)
        ensures
            r == cuts_character(invite_url.spec_bytes()),
    {
        let b = invite_url.as_bytes();
        let inv: [u8; 4] = [73, 78, 86, 45];
        let found = find_bytes(b, &inv, 0);
        proof {
            assert(inv@ =~= inv_prefix());
            lemma_find_first(invite_url.spec_bytes(), inv_prefix(), found);
        }
        match found {
            Some(p) => b.len() - p > 13 && 0x80 <= b[p + 13] && b[p + 13] <= 0xbf,
            None => false,
        }
    }

    /// Reads the invite code out of an invite link: the 13 bytes that start at the first
    /// `INV-` when they form a code, otherwise the value of the first `code=` parameter (up to
    /// `&`) when it is a code; any other link is an invalid invite link.
    pub fn extract_invite_code(invite_url: &str) -> (r: Result<String, AppError>)
        requires
            !cuts_character(invite_url.spec_bytes()),
        ensures
            r matches Ok(s) ==> extracted_code(invite_url.spec_bytes()) == Some(encode_utf8(s@)),
            r is Err ==> extracted_code(invite_url.spec_bytes()) is None,
            r matches Err(e) ==> e is InvalidInviteLink,
    {
        let b = invite_url.as_bytes();
        let ghost bs = invite_url.spec_bytes();
        proof {
            encode_utf8_valid_utf8(invite_url@);
        }
        let inv: [u8; 4] = [73, 78, 86, 45];
        let found = find_bytes(b, &inv, 0);
        proof {
            assert(inv@ =~= inv_prefix());
            lemma_find_first(bs, inv_prefix(), found);
        }
        match found {
            Some(p) => {
                if b.len() - p >= 13 {
                    let code = vstd::slice::slice_subrange(b, p, p + 13);
                    assert(code@ =~= bs.subrange(p as int, p + 13));
                    if valid_code_slice(code) {
                        proof {
                            assert(bs[p as int] == 73u8) by {
                                assert(bs.subrange(p as int, p + 4)[0] == bs[p as int]);
                            }
                            is_char_boundary_iff_not_is_continuation_byte(bs, p as int);
                            if p + 13 < bs.len() {
                                is_char_boundary_iff_not_is_continuation_byte(bs, p + 13);
                            } else {
                                is_char_boundary_start_end_of_seq(bs);
                            }
                        }
                        let (_, tail) = invite_url.split_at(p);
                        proof {
                            encode_utf8_valid_utf8(tail@);
                            is_char_boundary_iff_not_is_continuation_byte(tail.spec_bytes(), 0);
                            if 13 < tail.spec_bytes().len() {
                                assert(tail.spec_bytes()[13] == bs[p + 13]);
                                is_char_boundary_iff_not_is_continuation_byte(tail.spec_bytes(), 13);
                            } else {
                                is_char_boundary_start_end_of_seq(tail.spec_bytes());
                            }
                        }
                        let (head, _) = tail.split_at(13);
                        assert(head.spec_bytes() =~= bs.subrange(p as int, p + 13));
                        return Ok(head.to_owned());
                    }
                }
            },
            None => {},
        }
        assert(code_from_prefix(bs) is None);
        let key: [u8; 5] = [99, 111, 100, 101, 61];
        let at = find_bytes(b, &key, 0);
        proof {
            assert(key@ =~= code_key());
            lemma_find_first(bs, code_key(), at);
        }
        match at {
            Some(p) => {
                assert(occurs_at(bs, code_key(), p as int));
                assert(code_key().len() == 5);
                assert(p + 5 <= b.len());
                let start: usize = p + 5;
                let after = vstd::slice::slice_subrange(b, start, b.len());
                let ghost after_s = bs.subrange(p + 5, bs.len() as int);
                assert(after@ =~= after_s);
                let amp: [u8; 1] = [38];
                let e = find_bytes(after, &amp, 0);
                proof {
                    assert(amp@ =~= seq![38u8]);
                    lemma_find_first(after_s, seq![38u8], e);
                }
                let end = match e {
                    Some(x) => x,
                    None => after.len(),
                };
                let code = vstd::slice::slice_subrange(after, 0, end);
                assert(code@ =~= after_s.subrange(0, end as int));
                assert(code_param(bs) == Some(code@)) by {
                    if e is None {
                        assert(after_s.subrange(0, end as int) =~= after_s);
                    }
                }
                if valid_code_slice(code) {
                    let q = p + 5;
                    proof {
                        assert(bs[q as int] == 73u8) by {
                            assert(code@[0] == bs[q as int]);
                        }
                        is_char_boundary_iff_not_is_continuation_byte(bs, q as int);
                        if q + 13 < bs.len() {
                            assert(bs[q + 13] == 38u8) by {
                                assert(e == Some(13usize));
                                assert(after_s.subrange(13, 14) == seq![38u8]);
                                assert(after_s.subrange(13, 14)[0] == after_s[13]);
                            }
                            is_char_boundary_iff_not_is_continuation_byte(bs, q + 13);
                        } else {
                            is_char_boundary_start_end_of_seq(bs);
                        }
                    }
                    let (_, tail) = invite_url.split_at(q);
                    proof {
                        encode_utf8_valid_utf8(tail@);
                        if 13 < tail.spec_bytes().len() {
                            assert(tail.spec_bytes()[13] == bs[q + 13]);
                            is_char_boundary_iff_not_is_continuation_byte(tail.spec_bytes(), 13);
                        } else {
                            is_char_boundary_start_end_of_seq(tail.spec_bytes());
                        }
                    }
                    let (head, _) = tail.split_at(13);
                    assert(head.spec_bytes() =~= code@);
                    return Ok(head.to_owned());
                }
            },
            None => {},
        }
        Err(AppError::InvalidInviteLink("유효하지 않은 초대 링크입니다.".to_owned()))
    }
}

/// Four decimal digits of `n`, zero-padded (`{:04}` for `n < 10000`).
pub open spec fn pad4(n: nat) -> Seq<char> {
    seq![digit_char(n / 1000), digit_char((n / 100) % 10), digit_char((n / 10) % 10), digit_char(n % 10)]
}

/// A freshly generated code: `INV-` and two four-digit numbers.
pub open spec fn generated_code(s: Seq<char>) -> bool {
    exists|a: nat, b: nat| a < 10000 && b < 10000 && s == "INV-"@ + pad4(a) + "-"@ + pad4(b)
}

/// A uniformly drawn number below `bound` (`rand::thread_rng().gen_range(0..bound)`); the
/// value is random, only the range is promised.
#[verifier::external_body]
fn random_below(bound: u32) -> (r: u32)
    requires
        bound > 0,
    ensures
        r < bound,
{
    rand::thread_rng().gen_range(0..bound)
}

fn push_pad4(s: &mut String, n: u32)
    requires
        n < 10000,
    ensures
        final(s)@ == old(s)@ + pad4(n as nat),
{
    s.append(crate::text::digit_str((n / 1000) as u64));
    s.append(crate::text::digit_str(((n / 100) % 10) as u64));
    s.append(crate::text::digit_str(((n / 10) % 10) as u64));
    s.append(crate::text::digit_str((n % 10) as u64));
    assert(final(s)@ =~= old(s)@ + pad4(n as nat));
}

impl RetrospectService {
    /// A new random invite code `INV-dddd-dddd`.
    pub fn generate_invite_code() -> (r: String)
        ensures
            generated_code(r@),
    {
        let part1 = random_below(10000);
        let part2 = random_below(10000);
        let mut s = "INV-".to_owned();
        push_pad4(&mut s, part1);
        s.append("-");
        push_pad4(&mut s, part2);
        assert(s@ =~= "INV-"@ + pad4(part1 as nat) + "-"@ + pad4(part2 as nat));
        s
    }
}

proof fn lemma_digit_byte(d: nat)
    requires
        d < 10,
    ensures
        '\0' <= digit_char(d) <= '\u{7f}',
        is_alnum_byte(digit_char(d) as u8),
{
}

/// Every code `generate_invite_code` can make is a valid invite code, and an invite link
/// that is just the code gives the code back.
pub proof fn law_generated_code_round_trip(s: Seq<char>)
    requires
        generated_code(s),
    ensures
        valid_code_bytes(encode_utf8(s)),
        !cuts_character(encode_utf8(s)),
        extracted_code(encode_utf8(s)) == Some(encode_utf8(s)),
{
    let (a, b) = choose|a: nat, b: nat| a < 10000 && b < 10000 && s == "INV-"@ + pad4(a) + "-"@ + pad4(b);
    reveal_strlit("INV-");
    reveal_strlit("-");
    assert(a / 1000 < 10 && (a / 100) % 10 < 10 && (a / 10) % 10 < 10 && a % 10 < 10) by (nonlinear_arith)
        requires a < 10000;
    assert(b / 1000 < 10 && (b / 100) % 10 < 10 && (b / 10) % 10 < 10 && b % 10 < 10) by (nonlinear_arith)
        requires b < 10000;
    lemma_digit_byte(a / 1000);
    lemma_digit_byte((a / 100) % 10);
    lemma_digit_byte((a / 10) % 10);
    lemma_digit_byte(a % 10);
    lemma_digit_byte(b / 1000);
    lemma_digit_byte((b / 100) % 10);
    lemma_digit_byte((b / 10) % 10);
    lemma_digit_byte(b % 10);
    assert(s.len() == 13);
    assert(s[4] == digit_char(a / 1000) && s[5] == digit_char((a / 100) % 10) && s[6] == digit_char((a / 10) % 10)
        && s[7] == digit_char(a % 10));
    assert(s[9] == digit_char(b / 1000) && s[10] == digit_char((b / 100) % 10) && s[11] == digit_char((b / 10) % 10)
        && s[12] == digit_char(b % 10));
    assert(s[0] == 'I' && s[1] == 'N' && s[2] == 'V' && s[3] == '-' && s[8] == '-');
    assert(is_ascii_chars(s));
    is_ascii_chars_encode_utf8(s);
    let e = encode_utf8(s);
    assert(e.len() == 13);
    assert(e[0] == s[0] as u8 && e[1] == s[1] as u8 && e[2] == s[2] as u8 && e[3] == s[3] as u8 && e[8] == s[8] as u8);
    assert forall|i: int| 4 <= i < 8 implies is_alnum_byte(#[trigger] e[i]) by {
        assert(e[i] == s[i] as u8);
    }
    assert forall|i: int| 9 <= i < 13 implies is_alnum_byte(#[trigger] e[i]) by {
        assert(e[i] == s[i] as u8);
    }
    assert(valid_code_bytes(e));
    assert(e.subrange(0, 4) =~= inv_prefix());
    assert(occurs_at(e, inv_prefix(), 0));
    let p = choose|i: int| occurs_at(e, inv_prefix(), i) && forall|j: int| 0 <= j < i ==> !occurs_at(e, inv_prefix(), j);
    assert(p == 0) by {
        if p > 0 {
            assert(!occurs_at(e, inv_prefix(), 0));
        }
    }
    assert(find_first(e, inv_prefix()) == Some(0int));
    assert(e.subrange(0, 13) =~= e);
}

} // verus!

verus! {

proof fn lemma_first_occurrence_exists(b: Seq<u8>, pat: Seq<u8>, i: int)
    requires
        occurs_at(b, pat, i),
    ensures
        exists|k: int| occurs_at(b, pat, k) && forall|j: int| 0 <= j < k ==> !occurs_at(b, pat, j),
    decreases i,
{
    if exists|j: int| 0 <= j < i && occurs_at(b, pat, j) {
        let j = choose|j: int| 0 <= j < i && occurs_at(b, pat, j);
        lemma_first_occurrence_exists(b, pat, j);
    } else {
        assert(forall|j: int| 0 <= j < i ==> !occurs_at(b, pat, j));
    }
}

proof fn lemma_find_first_some(b: Seq<u8>, pat: Seq<u8>)
    ensures
        find_first(b, pat) matches Some(p) ==> occurs_at(b, pat, p) && forall|j: int|
            0 <= j < p ==> !occurs_at(b, pat, j),
        find_first(b, pat) is None ==> forall|j: int| !occurs_at(b, pat, j),
{
    if exists|i: int| occurs_at(b, pat, i) {
        let i = choose|i: int| occurs_at(b, pat, i);
        lemma_first_occurrence_exists(b, pat, i);
    }
}

proof fn lemma_find_first_at(b: Seq<u8>, pat: Seq<u8>, n: int)
    requires
        occurs_at(b, pat, n),
        forall|j: int| 0 <= j < n ==> !occurs_at(b, pat, j),
    ensures
        find_first(b, pat) == Some(n),
{
    lemma_find_first_some(b, pat);
    let f = find_first(b, pat)->0;
    if f < n {
        assert(!occurs_at(b, pat, f));
    } else if f > n {
        assert(!occurs_at(b, pat, n));
    }
}

proof fn lemma_encode_utf8_concat(a: Seq<char>, b: Seq<char>)
    ensures
        encode_utf8(a + b) == encode_utf8(a) + encode_utf8(b),
    decreases a.len(),
{
    if a.len() == 0 {
        assert(a + b =~= b);
        assert(encode_utf8(a) + encode_utf8(b) =~= encode_utf8(b));
    } else {
        lemma_encode_utf8_concat(a.drop_first(), b);
        assert((a + b).drop_first() =~= a.drop_first() + b);
        assert((a + b)[0] == a[0]);
        assert(encode_utf8(a + b) =~= encode_utf8(a) + encode_utf8(b));
    }
}

/// What an invite link gives is always a valid invite code that stands in the link; and when
/// the 13 bytes after the link's first `INV-` form a code, that code is what it gives.
pub proof fn law_extracted_code_valid_and_in_link(b: Seq<u8>)
    ensures
        extracted_code(b) matches Some(c) ==> valid_code_bytes(c) && exists|i: int| occurs_at(b, c, i),
        code_from_prefix(b) matches Some(c0) ==> extracted_code(b) == Some(c0),
{
    match code_from_prefix(b) {
        Some(c) => {
            lemma_find_first_some(b, inv_prefix());
            let p = find_first(b, inv_prefix())->0;
            assert(occurs_at(b, c, p));
        },
        None => {
            match code_param(b) {
                Some(c) => {
                    if valid_code_bytes(c) {
                        lemma_find_first_some(b, code_key());
                        let p = find_first(b, code_key())->0;
                        assert(occurs_at(b, code_key(), p));
                        let after = b.subrange(p + 5, b.len() as int);
                        lemma_find_first_some(after, seq![38u8]);
                        match find_first(after, seq![38u8]) {
                            Some(e) => {
                                assert(occurs_at(after, seq![38u8], e));
                                assert(c =~= b.subrange(p + 5, p + 5 + c.len()));
                            },
                            None => {
                                assert(c =~= b.subrange(p + 5, p + 5 + c.len()));
                            },
                        }
                        assert(occurs_at(b, c, p + 5));
                    }
                },
                None => {},
            }
        },
    }
}

proof fn lemma_no_inv_before(pb: Seq<u8>, cb: Seq<u8>, sb: Seq<u8>)
    requires
        valid_code_bytes(cb),
        forall|j: int| !occurs_at(pb, inv_prefix(), j),
    ensures
        forall|j: int| 0 <= j < pb.len() ==> !occurs_at(pb + cb + sb, inv_prefix(), j),
{
    let b = pb + cb + sb;
    let n = pb.len() as int;
    assert forall|j: int| 0 <= j < n implies !occurs_at(b, inv_prefix(), j) by {
        if occurs_at(b, inv_prefix(), j) {
            if j + 4 <= n {
                assert(pb.subrange(j, j + 4) =~= b.subrange(j, j + 4));
                assert(occurs_at(pb, inv_prefix(), j));
            } else {
                assert(b.subrange(j, j + 4)[n - j] == b[n]);
                assert(b[n] == cb[0]);
                assert(inv_prefix()[n - j] != 73u8);
            }
        }
    }
}

proof fn lemma_code_after_clean_prefix(pb: Seq<u8>, cb: Seq<u8>, sb: Seq<u8>)
    requires
        valid_code_bytes(cb),
        forall|j: int| !occurs_at(pb, inv_prefix(), j),
        sb.len() > 0 ==> !is_continuation_byte(sb[0]),
    ensures
        !cuts_character(pb + cb + sb),
        extracted_code(pb + cb + sb) == Some(cb),
{
    let b = pb + cb + sb;
    let n = pb.len() as int;
    assert(b.subrange(n, n + 13) =~= cb);
    assert(b.subrange(n, n + 4) =~= inv_prefix());
    assert(occurs_at(b, inv_prefix(), n));
    lemma_no_inv_before(pb, cb, sb);
    lemma_find_first_at(b, inv_prefix(), n);
    if n + 13 < b.len() {
        assert(b[n + 13] == sb[0]);
    }
}

/// A generated code inside a link, after any text whose bytes hold no `INV-` and before any
/// text at all, is read back out of the link, and reading it cuts no character.
pub proof fn law_code_in_link_round_trip(prefix: Seq<char>, code: Seq<char>, suffix: Seq<char>)
    requires
        generated_code(code),
        find_first(encode_utf8(prefix), inv_prefix()) is None,
    ensures
        !cuts_character(encode_utf8(prefix + code + suffix)),
        extracted_code(encode_utf8(prefix + code + suffix)) == Some(encode_utf8(code)),
{
    law_generated_code_round_trip(code);
    lemma_find_first_some(encode_utf8(prefix), inv_prefix());
    lemma_encode_utf8_concat(prefix, code);
    lemma_encode_utf8_concat(prefix + code, suffix);
    let sb = encode_utf8(suffix);
    if sb.len() > 0 {
        encode_utf8_valid_utf8(suffix);
        is_char_boundary_start_end_of_seq(sb);
        is_char_boundary_iff_not_is_continuation_byte(sb, 0);
    }
    lemma_code_after_clean_prefix(encode_utf8(prefix), encode_utf8(code), sb);
}

} // verus!
