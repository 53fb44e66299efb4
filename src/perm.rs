//! The `rwxrwxrwx` rendering of Unix permission bits.
use vstd::prelude::*;
use crate::text::push_char;

verus! {

/// Whether bit `k` (0 = least significant) of `mode` is set.
pub open spec fn bit_set(mode: u32, k: int) -> bool {
    mode & (1u32 << (k as u32)) != 0
}

/// The letter a set bit shows at position `i` of the nine: read, write, execute,
/// for owner, group and others in turn.
pub open spec fn perm_letter(i: int) -> char {
    if i % 3 == 0 {
        'r'
    } else if i % 3 == 1 {
        'w'
    } else {
        'x'
    }
}

/// The nine characters for the low nine bits of `mode`, most significant
/// first; a clear bit shows as `-`.
pub open spec fn permission_text(mode: u32) -> Seq<char> {
    Seq::new(9, |i: int| if bit_set(mode, 8 - i) { perm_letter(i) } else { '-' })
}

/// Renders the owner, group and other permission bits of `mode` as
/// `rwxrwxrwx`, with `-` for each bit that is clear.
pub fn format_permissions(mode: u32) -> (r: String)
    ensures
        r@ == permission_text(mode),
{
    let mut r = String::new();
    let mut i: u32 = 0;
    while i < 9
        invariant
            i <= 9,
            r@ =~= permission_text(mode).subrange(0, i as int),
        decreases 9 - i,
    {
        let mask: u32 = 1u32 << (8 - i);
        let letter = if i % 3 == 0 {
            'r'
        } else if i % 3 == 1 {
            'w'
        } else {
            'x'
        };
        let c = if mode & mask != 0 { letter } else { '-' };
        push_char(&mut r, c);
        assert(r@ =~= permission_text(mode).subrange(0, i + 1));
        i = i + 1;
    }
    r
}

} // verus!
