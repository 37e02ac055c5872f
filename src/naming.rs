//! File names as byte strings: how a name splits into stem and extension, the
//! lowercase hexadecimal form of a digest, and the canonical name of a file.
use vstd::prelude::*;

verus! {

/// The byte `.`, which separates a stem from its extension.
pub const DOT: u8 = 46;

/// Index of the last `.` among the first `n` bytes of `s`, or -1 if there is none.
pub open spec fn last_dot_before(s: Seq<u8>, n: int) -> int
    decreases n,
{
    if n <= 0 {
        -1
    } else if s[n - 1] == DOT {
        n - 1
    } else {
        last_dot_before(s, n - 1)
    }
}

/// Index of the last `.` in `name`, or -1 if there is none.
pub open spec fn last_dot(name: Seq<u8>) -> int {
    last_dot_before(name, name.len() as int)
}

/// Whether `name` has an extension: a `.` that is not its first byte, and the
/// name is not `..`.
pub open spec fn has_extension(name: Seq<u8>) -> bool {
    name != seq![DOT, DOT] && last_dot(name) > 0
}

/// The part of `name` before its extension (the whole name if it has none).
pub open spec fn stem_of(name: Seq<u8>) -> Seq<u8> {
    if has_extension(name) {
        name.subrange(0, last_dot(name))
    } else {
        name
    }
}

/// The part of `name` after its last `.` (empty if it has no extension).
pub open spec fn extension_of(name: Seq<u8>) -> Seq<u8> {
    if has_extension(name) {
        name.subrange(last_dot(name) + 1, name.len() as int)
    } else {
        Seq::empty()
    }
}

/// The name that a file called `name` gets once its contents have the
/// fingerprint `fp`: the fingerprint, followed by `.` and the extension when
/// that is not empty.
pub open spec fn canonical_name_of(name: Seq<u8>, fp: Seq<u8>) -> Seq<u8> {
    if extension_of(name).len() > 0 {
        fp + seq![DOT] + extension_of(name)
    } else {
        fp
    }
}

/// Whether `c` is one of `0`..`9` or `a`..`f`.
pub open spec fn is_lower_hex_digit(c: u8) -> bool {
    (48 <= c && c <= 57) || (97 <= c && c <= 102)
}

/// Whether `s` is exactly 32 lowercase hexadecimal digits: the shape of a fingerprint.
pub open spec fn is_fingerprint(s: Seq<u8>) -> bool {
    s.len() == 32 && forall|i: int| 0 <= i < s.len() ==> #[trigger] is_lower_hex_digit(s[i])
}

/// The lowercase hexadecimal digit for `n < 16`.
pub open spec fn hex_digit(n: u8) -> u8 {
    if n < 10 {
        (48 + n) as u8
    } else {
        (87 + n) as u8
    }
}

/// Two lowercase hexadecimal digits for each byte of `b`, high half first.
pub open spec fn lower_hex(b: Seq<u8>) -> Seq<u8> {
    Seq::new(
        2 * b.len(),
        |i: int|
            if i % 2 == 0 {
                hex_digit(b[i / 2] / 16)
            } else {
                hex_digit(b[i / 2] % 16)
            },
    )
}

proof fn lemma_last_dot_before(s: Seq<u8>, n: int)
    requires
        0 <= n <= s.len(),
    ensures
        -1 <= last_dot_before(s, n) < n,
        last_dot_before(s, n) >= 0 ==> s[last_dot_before(s, n)] == DOT,
        forall|j: int| last_dot_before(s, n) < j < n ==> s[j] != DOT,
    decreases n,
{
    if n > 0 {
        lemma_last_dot_before(s, n - 1);
    }
}

/// Index of the last `.` in `name`, if any.
pub fn find_last_dot(name: &Vec<u8>) -> (r: Option<usize>)
    ensures
        match r {
            Some(i) => i as int == last_dot(name@) && i < name.len(),
            None => last_dot(name@) == -1,
        },
{
    proof {
        lemma_last_dot_before(name@, name@.len() as int);
    }
    let mut n: usize = name.len();
    while n > 0
        invariant
            n <= name.len(),
            last_dot(name@) == last_dot_before(name@, n as int),
        decreases n,
    {
        if name[n - 1] == DOT {
            return Some(n - 1);
        }
        n = n - 1;
    }
    None
}

/// The extension of `name`, without its dot; empty when the name has none.
pub fn extension(name: &Vec<u8>) -> (r: Vec<u8>)
    ensures
        r@ == extension_of(name@),
{
    let mut r: Vec<u8> = Vec::new();
    let is_parent = name.len() == 2 && name[0] == DOT && name[1] == DOT;
    if is_parent {
        assert(name@ =~= seq![DOT, DOT]);
        return r;
    }
    assert(name@ != seq![DOT, DOT]);
    match find_last_dot(name) {
        None => {
            assert(r@ =~= extension_of(name@));
            r
        },
        Some(d) => {
            if d == 0 {
                assert(r@ =~= extension_of(name@));
                return r;
            }
            let mut i: usize = d + 1;
            while i < name.len()
                invariant
                    d < i <= name.len(),
                    r@ =~= name@.subrange(d + 1, i as int),
                decreases name.len() - i,
            {
                r.push(name[i]);
                i = i + 1;
            }
            r
        },
    }
}

/// Appends the bytes of `src` to `dst`.
pub fn append_bytes(dst: &mut Vec<u8>, src: &Vec<u8>)
    ensures
        final(dst)@ == old(dst)@ + src@,
{
    let ghost start = dst@;
    let mut i: usize = 0;
    while i < src.len()
        invariant
            i <= src.len(),
            dst@ =~= start + src@.subrange(0, i as int),
        decreases src.len() - i,
    {
        dst.push(src[i]);
        i = i + 1;
    }
    assert(src@.subrange(0, src@.len() as int) =~= src@);
}

/// The name that a file called `name` takes once its contents have the
/// fingerprint `fp`: `fp`, or `fp.ext` where `name` has the extension `ext`.
pub fn canonical_name(name: &Vec<u8>, fp: &Vec<u8>) -> (r: Vec<u8>)
    ensures
        r@ == canonical_name_of(name@, fp@),
{
    let ext = extension(name);
    let mut r: Vec<u8> = Vec::new();
    append_bytes(&mut r, fp);
    if ext.len() > 0 {
        r.push(DOT);
        append_bytes(&mut r, &ext);
    }
    assert(r@ =~= canonical_name_of(name@, fp@));
    r
}

/// Whether two names are the same byte string.
pub fn same_name(a: &Vec<u8>, b: &Vec<u8>) -> (r: bool)
    ensures
        r == (a@ == b@),
{
    if a.len() != b.len() {
        return false;
    }
    let mut i: usize = 0;
    while i < a.len()
        invariant
            i <= a.len(),
            a.len() == b.len(),
            forall|j: int| 0 <= j < i ==> a@[j] == b@[j],
        decreases a.len() - i,
    {
        if a[i] != b[i] {
            return false;
        }
        i = i + 1;
    }
    assert(a@ =~= b@);
    true
}

fn hex_digit_exec(n: u8) -> (r: u8)
    requires
        n < 16,
    ensures
        r == hex_digit(n),
{
    if n < 10 {
        48 + n
    } else {
        87 + n
    }
}

/// Two lowercase hexadecimal digits for each byte, high half first.
pub fn to_lower_hex(bytes: &Vec<u8>) -> (r: Vec<u8>)
    requires
        bytes.len() <= usize::MAX / 2,
    ensures
        r@ == lower_hex(bytes@),
{
    let mut r: Vec<u8> = Vec::new();
    let mut i: usize = 0;
    while i < bytes.len()
        invariant
            i <= bytes.len(),
            bytes.len() <= usize::MAX / 2,
            r.len() == 2 * i,
            forall|j: int| 0 <= j < 2 * i ==> r@[j] == #[trigger] lower_hex(bytes@)[j],
        decreases bytes.len() - i,
    {
        let b = bytes[i];
        r.push(hex_digit_exec(b / 16));
        r.push(hex_digit_exec(b % 16));
        proof {
            assert forall|j: int| 0 <= j < 2 * i + 2 implies r@[j] == #[trigger] lower_hex(
                bytes@,
            )[j] by {
                if j >= 2 * i {
                    assert(j / 2 == i as int);
                }
            }
        }
        i = i + 1;
    }
    assert(r@ =~= lower_hex(bytes@));
    r
}

/// The lowercase hexadecimal form of a 16-byte digest has the shape of a fingerprint.
pub proof fn lemma_lower_hex_is_fingerprint(b: Seq<u8>)
    requires
        b.len() == 16,
    ensures
        is_fingerprint(lower_hex(b)),
{
    assert forall|i: int| 0 <= i < lower_hex(b).len() implies #[trigger] is_lower_hex_digit(
        lower_hex(b)[i],
    ) by {
        let x = b[i / 2];
        assert(x / 16 < 16) by (bit_vector);
        assert(x % 16 < 16) by (bit_vector);
    }
}

/// A name of fingerprint shape holds no `.`.
proof fn lemma_fingerprint_has_no_dot(fp: Seq<u8>, n: int)
    requires
        is_fingerprint(fp),
        0 <= n <= fp.len(),
    ensures
        last_dot_before(fp, n) == -1,
    decreases n,
{
    if n > 0 {
        assert(is_lower_hex_digit(fp[n - 1]));
        lemma_fingerprint_has_no_dot(fp, n - 1);
    }
}

/// A canonical name splits back into the fingerprint and the original extension.
pub proof fn lemma_canonical_split(name: Seq<u8>, fp: Seq<u8>)
    requires
        is_fingerprint(fp),
    ensures
        stem_of(canonical_name_of(name, fp)) == fp,
        extension_of(canonical_name_of(name, fp)) == extension_of(name),
{
    let ext = extension_of(name);
    let c = canonical_name_of(name, fp);
    if ext.len() > 0 {
        lemma_last_dot_before(name, name.len() as int);
        assert(has_extension(name));
        assert forall|j: int| 0 <= j < ext.len() implies ext[j] != DOT by {
            assert(ext[j] == name[last_dot(name) + 1 + j]);
        }
        lemma_last_dot_suffix(fp, ext);
        assert(c.len() > 2);
        assert(c != seq![DOT, DOT]);
        assert(c.subrange(0, 32) =~= fp);
        assert(c.subrange(33, c.len() as int) =~= ext);
    } else {
        lemma_fingerprint_has_no_dot(fp, 32);
        if c == seq![DOT, DOT] {
            assert(c.len() == 2);
        }
        assert(!has_extension(c));
        assert(extension_of(c) =~= ext);
    }
}

proof fn lemma_last_dot_suffix(fp: Seq<u8>, ext: Seq<u8>)
    requires
        is_fingerprint(fp),
        forall|j: int| 0 <= j < ext.len() ==> ext[j] != DOT,
    ensures
        last_dot(fp + seq![DOT] + ext) == 32,
{
    let c = fp + seq![DOT] + ext;
    lemma_tail_has_no_dot(c, 33, c.len() as int);
}

proof fn lemma_tail_has_no_dot(c: Seq<u8>, lo: int, n: int)
    requires
        1 <= lo <= n <= c.len(),
        c[lo - 1] == DOT,
        forall|j: int| lo <= j < c.len() ==> c[j] != DOT,
    ensures
        last_dot_before(c, n) == lo - 1,
    decreases n,
{
    if n > lo {
        lemma_tail_has_no_dot(c, lo, n - 1);
    }
}

/// The stem of `name`: the name without its extension and the dot before it.
pub fn stem(name: &Vec<u8>) -> (r: Vec<u8>)
    ensures
        r@ == stem_of(name@),
{
    let mut r: Vec<u8> = Vec::new();
    let is_parent = name.len() == 2 && name[0] == DOT && name[1] == DOT;
    let end: usize = if is_parent {
        assert(name@ =~= seq![DOT, DOT]);
        name.len()
    } else {
        match find_last_dot(name) {
            Some(d) => if d == 0 {
                name.len()
            } else {
                d
            },
            None => name.len(),
        }
    };
    let mut i: usize = 0;
    while i < end
        invariant
            i <= end <= name.len(),
            r@ =~= name@.subrange(0, i as int),
        decreases end - i,
    {
        r.push(name[i]);
        i = i + 1;
    }
    assert(r@ =~= stem_of(name@));
    r
}

} // verus!
