//! Decoding of listed port names: the enumeration itself is platform work
//! done outside the library, which hands the raw NUL-terminated name
//! buffers in and takes the trimmed names back.

use vstd::prelude::*;

verus! {

/// Index of the first NUL byte of `s` at or after `from`; `s.len()` when
/// there is none.
pub open spec fn nul_pos(s: Seq<u8>, from: int) -> int
    decreases s.len() - from,
{
    if from < 0 || from >= s.len() {
        s.len() as int
    } else if s[from] == 0 {
        from
    } else {
        nul_pos(s, from + 1)
    }
}

/// The name held in a NUL-terminated buffer: everything before the first
/// NUL, or the whole buffer when no NUL ends it.
pub open spec fn cstr_of(s: Seq<u8>) -> Seq<u8> {
    s.take(nul_pos(s, 0))
}

/// `nul_pos` finds exactly the first NUL at or after `from`.
proof fn lemma_nul_pos_first(s: Seq<u8>, from: int, p: int)
    requires
        0 <= from <= p <= s.len(),
        forall|j: int| from <= j < p ==> s[j] != 0,
        p < s.len() ==> s[p] == 0,
    ensures
        nul_pos(s, from) == p,
    decreases p - from,
{
    if from < p {
        lemma_nul_pos_first(s, from + 1, p);
    }
}

/// The bytes of one reported name, up to its NUL terminator.
fn cstr_take(raw: &Vec<u8>) -> (name: Vec<u8>)
    ensures
        name@ == cstr_of(raw@),
{
    let mut out: Vec<u8> = Vec::new();
    let mut i: usize = 0;
    while i < raw.len() && raw[i] != 0
        invariant
            i <= raw@.len(),
            forall|j: int| 0 <= j < i ==> raw@[j] != 0,
            out@ == raw@.take(i as int),
        decreases raw@.len() - i,
    {
        let b = raw[i];
        out.push(b);
        proof {
            assert(out@ =~= raw@.take(i + 1));
        }
        i = i + 1;
    }
    proof {
        lemma_nul_pos_first(raw@, 0, i as int);
    }
    out
}

/// The names of the listed ports, one per raw NUL-terminated buffer that
/// the platform's device enumeration reported, in listing order.
pub fn list(raw: &Vec<Vec<u8>>) -> (names: Vec<Vec<u8>>)
    ensures
        names@.len() == raw@.len(),
        forall|i: int| 0 <= i < raw@.len() ==> names@[i]@ == cstr_of(raw@[i]@),
{
    let mut names: Vec<Vec<u8>> = Vec::new();
    let mut k: usize = 0;
    while k < raw.len()
        invariant
            k <= raw@.len(),
            names@.len() == k,
            forall|i: int| 0 <= i < k ==> names@[i]@ == cstr_of(raw@[i]@),
        decreases raw@.len() - k,
    {
        let name = cstr_take(&raw[k]);
        names.push(name);
        k = k + 1;
    }
    names
}

/// The same decoding for the other platform's listing.
pub fn list_ports(raw: &Vec<Vec<u8>>) -> (names: Vec<Vec<u8>>)
    ensures
        names@.len() == raw@.len(),
        forall|i: int| 0 <= i < raw@.len() ==> names@[i]@ == cstr_of(raw@[i]@),
{
    list(raw)
}

} // verus!
