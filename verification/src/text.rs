use vstd::prelude::*;

verus! {

/// The characters of a byte sequence, each byte read as the character with
/// the same code. HTTP request lines and headers are ASCII in practice, and
/// on ASCII bytes this is the identity reading; bytes above 127 are kept as
/// the character of equal code rather than decoded as UTF-8.
pub open spec fn to_chars(s: Seq<u8>) -> Seq<char> {
    s.map_values(|b: u8| b as char)
}

/// Reading bytes as characters code for code loses nothing: two byte
/// sequences with the same characters are the same bytes.
pub proof fn lemma_to_chars_injective(a: Seq<u8>, b: Seq<u8>)
    requires
        to_chars(a) == to_chars(b),
    ensures
        a == b,
{
    assert(to_chars(a).len() == a.len());
    assert(to_chars(b).len() == b.len());
    assert forall|i: int| 0 <= i < a.len() implies a[i] == b[i] by {
        assert(to_chars(a)[i] == a[i] as char);
        assert(to_chars(b)[i] == b[i] as char);
        assert(a[i] as u32 == b[i] as u32);
    };
    assert(a =~= b);
}

/// Relies on String::push: appends exactly the given character.
#[verifier::external_body]
fn string_push(s: &mut String, c: char)
    ensures
        final(s)@ == old(s)@ + seq![c],
{
    s.push(c);
}

/// Builds the string whose characters are the bytes of `v`, code for code.
pub fn bytes_to_string(v: &Vec<u8>) -> (s: String)
    ensures
        s@ == to_chars(v@),
{
    let mut s = String::new();
    let mut i: usize = 0;
    while i < v.len()
        invariant
            i <= v.len(),
            s@ == to_chars(v@.take(i as int)),
        decreases v.len() - i,
    {
        let c = v[i] as char;
        string_push(&mut s, c);
        proof {
            assert(to_chars(v@.take(i as int + 1)) =~= to_chars(v@.take(i as int))
                + seq![v@[i as int] as char]);
        }
        i = i + 1;
    }
    proof {
        assert(v@.take(v.len() as int) =~= v@);
    }
    s
}

} // verus!
