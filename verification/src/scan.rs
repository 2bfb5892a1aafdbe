use vstd::prelude::*;

verus! {

pub const LINE_FEED: u8 = 10;

pub const CARRIAGE_RETURN: u8 = 13;

pub const SPACE: u8 = 32;

pub const COLON: u8 = 58;

/// One carriage return at the end of a line is stripped, as the line is
/// taken off its terminating line feed.
pub open spec fn strip_cr(line: Seq<u8>) -> Seq<u8> {
    if line.len() > 0 && line.last() == CARRIAGE_RETURN {
        line.drop_last()
    } else {
        line
    }
}

/// The lines of `s` when the bytes of `cur` have already been scanned as the
/// beginning of the current line: a line ends at a line feed (a carriage
/// return directly before it is stripped); a nonempty tail without a line
/// feed is a final line of its own.
pub open spec fn lines_from(s: Seq<u8>, cur: Seq<u8>) -> Seq<Seq<u8>>
    decreases s.len(),
{
    if s.len() == 0 {
        if cur.len() == 0 {
            Seq::empty()
        } else {
            seq![cur]
        }
    } else if s[0] == LINE_FEED {
        seq![strip_cr(cur)] + lines_from(s.skip(1), Seq::empty())
    } else {
        lines_from(s.skip(1), cur.push(s[0]))
    }
}

/// The lines of a byte sequence.
pub open spec fn spec_lines(s: Seq<u8>) -> Seq<Seq<u8>> {
    lines_from(s, Seq::empty())
}

/// The views of a sequence of byte vectors.
pub open spec fn vecs_view(s: Seq<Vec<u8>>) -> Seq<Seq<u8>> {
    s.map_values(|l: Vec<u8>| l@)
}

/// Splits a buffer into its lines.
pub fn split_lines(raw: &Vec<u8>) -> (lines: Vec<Vec<u8>>)
    ensures
        vecs_view(lines@) == spec_lines(raw@),
{
    let mut lines: Vec<Vec<u8>> = Vec::new();
    let mut cur: Vec<u8> = Vec::new();
    let mut i: usize = 0;
    proof {
        assert(raw@.skip(0) =~= raw@);
    }
    while i < raw.len()
        invariant
            i <= raw.len(),
            spec_lines(raw@) == vecs_view(lines@) + lines_from(
                raw@.skip(i as int),
                cur@,
            ),
        decreases raw.len() - i,
    {
        let ghost prev_lines = vecs_view(lines@);
        let ghost s = raw@.skip(i as int);
        proof {
            assert(s[0] == raw@[i as int]);
            assert(s.skip(1) =~= raw@.skip(i as int + 1));
        }
        let b = raw[i];
        if b == LINE_FEED {
            let ghost cur0 = cur@;
            let mut line = cur;
            cur = Vec::new();
            if line.len() > 0 && line[line.len() - 1] == CARRIAGE_RETURN {
                let _ = line.pop();
            }
            proof {
                assert(line@ == strip_cr(cur0));
            }
            lines.push(line);
            proof {
                assert(vecs_view(lines@) =~= prev_lines + seq![line@]);
                assert(prev_lines + lines_from(s, cur0) =~= (prev_lines + seq![strip_cr(cur0)])
                    + lines_from(s.skip(1), Seq::empty()));
            }
        } else {
            cur.push(b);
        }
        i = i + 1;
    }
    proof {
        assert(raw@.skip(raw.len() as int) =~= Seq::<u8>::empty());
        if cur@.len() == 0 {
            assert(vecs_view(lines@) + Seq::<Seq<u8>>::empty() =~= vecs_view(lines@));
        }
    }
    if cur.len() > 0 {
        let ghost prev_lines = vecs_view(lines@);
        lines.push(cur);
        proof {
            assert(vecs_view(lines@) =~= prev_lines + seq![cur@]);
        }
    }
    lines
}

/// The space-separated tokens of `s` when the bytes of `cur` have already
/// been scanned as the beginning of the current token. Every space separates,
/// so consecutive spaces yield empty tokens, and the empty sequence holds one
/// empty token.
pub open spec fn tokens_from(s: Seq<u8>, cur: Seq<u8>) -> Seq<Seq<u8>>
    decreases s.len(),
{
    if s.len() == 0 {
        seq![cur]
    } else if s[0] == SPACE {
        seq![cur] + tokens_from(s.skip(1), Seq::empty())
    } else {
        tokens_from(s.skip(1), cur.push(s[0]))
    }
}

/// The space-separated tokens of a byte sequence.
pub open spec fn spec_tokens(s: Seq<u8>) -> Seq<Seq<u8>> {
    tokens_from(s, Seq::empty())
}

/// Splits a line into its space-separated tokens.
pub fn split_spaces(line: &Vec<u8>) -> (tokens: Vec<Vec<u8>>)
    ensures
        vecs_view(tokens@) == spec_tokens(line@),
{
    let mut tokens: Vec<Vec<u8>> = Vec::new();
    let mut cur: Vec<u8> = Vec::new();
    let mut i: usize = 0;
    proof {
        assert(line@.skip(0) =~= line@);
    }
    while i < line.len()
        invariant
            i <= line.len(),
            spec_tokens(line@) == vecs_view(tokens@) + tokens_from(
                line@.skip(i as int),
                cur@,
            ),
        decreases line.len() - i,
    {
        let ghost prev_tokens = vecs_view(tokens@);
        let ghost s = line@.skip(i as int);
        proof {
            assert(s[0] == line@[i as int]);
            assert(s.skip(1) =~= line@.skip(i as int + 1));
        }
        let b = line[i];
        if b == SPACE {
            let ghost cur0 = cur@;
            tokens.push(cur);
            cur = Vec::new();
            proof {
                assert(vecs_view(tokens@) =~= prev_tokens + seq![cur0]);
                assert(prev_tokens + tokens_from(s, cur0) =~= (prev_tokens + seq![cur0])
                    + tokens_from(s.skip(1), Seq::empty()));
            }
        } else {
            cur.push(b);
        }
        i = i + 1;
    }
    proof {
        assert(line@.skip(line.len() as int) =~= Seq::<u8>::empty());
    }
    let ghost prev_tokens = vecs_view(tokens@);
    tokens.push(cur);
    proof {
        assert(vecs_view(tokens@) =~= prev_tokens + seq![cur@]);
    }
    tokens
}

/// The split of `s` at its first colon: the bytes before it and the bytes
/// after it, or nothing when `s` holds no colon.
pub open spec fn spec_split_colon(s: Seq<u8>) -> Option<(Seq<u8>, Seq<u8>)>
    decreases s.len(),
{
    if s.len() == 0 {
        None
    } else if s[0] == COLON {
        Some((Seq::empty(), s.skip(1)))
    } else {
        match spec_split_colon(s.skip(1)) {
            None => None,
            Some(kv) => Some((seq![s[0]] + kv.0, kv.1)),
        }
    }
}

/// `spec_split_colon` with the already-scanned colonless prefix `pre` put
/// back in front of the first component.
pub open spec fn colon_cont(r: Option<(Seq<u8>, Seq<u8>)>, pre: Seq<u8>) -> Option<
    (Seq<u8>, Seq<u8>),
> {
    match r {
        None => None,
        Some(kv) => Some((pre + kv.0, kv.1)),
    }
}

/// Splits a line at its first colon.
pub fn split_first_colon(line: &Vec<u8>) -> (r: Option<(Vec<u8>, Vec<u8>)>)
    ensures
        match r {
            Some(kv) => spec_split_colon(line@) == Some((kv.0@, kv.1@)),
            None => spec_split_colon(line@) is None,
        },
{
    let mut key: Vec<u8> = Vec::new();
    let mut i: usize = 0;
    proof {
        assert(line@.skip(0) =~= line@);
        assert(colon_cont(spec_split_colon(line@), Seq::empty()) == spec_split_colon(line@));
    }
    while i < line.len()
        invariant
            i <= line.len(),
            spec_split_colon(line@) == colon_cont(spec_split_colon(line@.skip(i as int)), key@),
        decreases line.len() - i,
    {
        let ghost s = line@.skip(i as int);
        proof {
            assert(s[0] == line@[i as int]);
            assert(s.skip(1) =~= line@.skip(i as int + 1));
        }
        let b = line[i];
        if b == COLON {
            let mut value: Vec<u8> = Vec::new();
            let mut j: usize = i + 1;
            while j < line.len()
                invariant
                    i + 1 <= j <= line.len(),
                    value@ == line@.subrange(i as int + 1, j as int),
                decreases line.len() - j,
            {
                value.push(line[j]);
                proof {
                    assert(line@.subrange(i as int + 1, j as int + 1) =~= line@.subrange(
                        i as int + 1,
                        j as int,
                    ) + seq![line@[j as int]]);
                }
                j = j + 1;
            }
            proof {
                assert(value@ =~= s.skip(1));
                assert(key@ + Seq::<u8>::empty() =~= key@);
            }
            return Some((key, value));
        }
        let ghost key0 = key@;
        key.push(b);
        proof {
            match spec_split_colon(s.skip(1)) {
                None => {},
                Some(kv) => {
                    assert(key@ + kv.0 =~= key0 + (seq![s[0]] + kv.0));
                },
            }
        }
        i = i + 1;
    }
    proof {
        assert(line@.skip(line.len() as int) =~= Seq::<u8>::empty());
    }
    None
}

/// An ASCII whitespace byte: space, tab, line feed, form feed or carriage
/// return.
pub open spec fn is_ascii_ws(b: u8) -> bool {
    b == 32 || b == 9 || b == 10 || b == 12 || b == 13
}

fn is_ws_byte(b: u8) -> (r: bool)
    ensures
        r == is_ascii_ws(b),
{
    b == 32 || b == 9 || b == 10 || b == 12 || b == 13
}

/// `s` without its leading ASCII whitespace.
pub open spec fn spec_trim_start(s: Seq<u8>) -> Seq<u8>
    decreases s.len(),
{
    if s.len() > 0 && is_ascii_ws(s[0]) {
        spec_trim_start(s.skip(1))
    } else {
        s
    }
}

/// `s` without its trailing ASCII whitespace.
pub open spec fn spec_trim_end(s: Seq<u8>) -> Seq<u8>
    decreases s.len(),
{
    if s.len() > 0 && is_ascii_ws(s.last()) {
        spec_trim_end(s.drop_last())
    } else {
        s
    }
}

/// `s` without leading and trailing ASCII whitespace.
pub open spec fn spec_trim(s: Seq<u8>) -> Seq<u8> {
    spec_trim_end(spec_trim_start(s))
}

/// Copies a byte sequence without its leading and trailing ASCII whitespace.
pub fn trim_bytes(v: &Vec<u8>) -> (r: Vec<u8>)
    ensures
        r@ == spec_trim(v@),
{
    let mut start: usize = 0;
    proof {
        assert(v@.skip(0) =~= v@);
    }
    while start < v.len() && is_ws_byte(v[start])
        invariant
            start <= v.len(),
            spec_trim_start(v@) == spec_trim_start(v@.skip(start as int)),
        decreases v.len() - start,
    {
        proof {
            assert(v@.skip(start as int)[0] == v@[start as int]);
            assert(v@.skip(start as int).skip(1) =~= v@.skip(start as int + 1));
        }
        start = start + 1;
    }
    proof {
        if start < v.len() {
            assert(spec_trim_start(v@.skip(start as int)) == v@.skip(start as int));
        } else {
            assert(v@.skip(start as int) =~= Seq::<u8>::empty());
        }
        assert(spec_trim_start(v@) == v@.skip(start as int));
    }
    let mut end: usize = v.len();
    proof {
        assert(v@.subrange(start as int, end as int) =~= v@.skip(start as int));
    }
    while end > start && is_ws_byte(v[end - 1])
        invariant
            start <= end <= v.len(),
            spec_trim_end(v@.skip(start as int)) == spec_trim_end(
                v@.subrange(start as int, end as int),
            ),
        decreases end,
    {
        proof {
            let sub = v@.subrange(start as int, end as int);
            assert(sub.last() == v@[end as int - 1]);
            assert(sub.drop_last() =~= v@.subrange(start as int, end as int - 1));
        }
        end = end - 1;
    }
    proof {
        assert(spec_trim_end(v@.subrange(start as int, end as int)) == v@.subrange(
            start as int,
            end as int,
        ));
    }
    let mut r: Vec<u8> = Vec::new();
    let mut k: usize = start;
    while k < end
        invariant
            start <= k <= end <= v.len(),
            r@ == v@.subrange(start as int, k as int),
        decreases end - k,
    {
        r.push(v[k]);
        proof {
            assert(v@.subrange(start as int, k as int + 1) =~= v@.subrange(
                start as int,
                k as int,
            ) + seq![v@[k as int]]);
        }
        k = k + 1;
    }
    r
}

} // verus!
