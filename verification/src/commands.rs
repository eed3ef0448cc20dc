use vstd::prelude::*;

use crate::error::DecodeError;
use crate::utils::{decode_zigzag, spec_zigzag_decode};

verus! {

/// One decoded drawing command: a cursor move, a drawn segment, or the
/// close of the current ring.  The two coordinates are zigzag-decoded
/// signed deltas, relative to the running cursor.
#[derive(Clone, Copy, Debug, PartialEq, Eq, Structural)]
pub enum Command {
    MoveTo(i64, i64),
    LineTo(i64, i64),
    ClosePath,
}

/// The command that one zigzag-encoded parameter pair yields under
/// opcode `id` (1 for MoveTo, 2 for LineTo).
pub open spec fn pair_command(id: u32, x: u32, y: u32) -> Command {
    if id == 1 {
        Command::MoveTo(spec_zigzag_decode(x) as i64, spec_zigzag_decode(y) as i64)
    } else {
        Command::LineTo(spec_zigzag_decode(x) as i64, spec_zigzag_decode(y) as i64)
    }
}

/// The first `k` commands of a parameterised block whose parameter
/// pairs start at index `base` of the stream.
pub open spec fn block_prefix(g: Seq<u32>, base: int, id: u32, k: int) -> Seq<Command> {
    Seq::new(
        k as nat,
        |t: int| pair_command(id, g[base + 2 * t], g[base + 2 * t + 1]),
    )
}

/// The command sequence a packed geometry stream denotes, or `None`
/// where the stream is malformed: an unknown opcode, too few parameters
/// for a declared count, or a header read past the end.  Opcode 7
/// (ClosePath) carries no parameters and yields exactly one command
/// whatever its count; opcodes 1 and 2 consume `count` zigzag-encoded
/// parameter pairs.  A well-formed stream is consumed exactly to its
/// end.
pub open spec fn spec_parse_commands(g: Seq<u32>) -> Option<Seq<Command>>
    decreases g.len(),
{
    if g.len() == 0 {
        Some(Seq::empty())
    } else {
        let header = g[0];
        let id = header & 0x7;
        let count = (header >> 3) as int;
        if id == 7 {
            match spec_parse_commands(g.skip(1)) {
                Some(rest) => Some(seq![Command::ClosePath] + rest),
                None => None,
            }
        } else if id == 1 || id == 2 {
            if g.len() >= 1 + 2 * count {
                match spec_parse_commands(g.skip(1 + 2 * count)) {
                    Some(rest) => Some(block_prefix(g, 1, id, count) + rest),
                    None => None,
                }
            } else {
                None
            }
        } else {
            None
        }
    }
}

/// A done-prefix of commands joined with the outcome of parsing the
/// rest of the stream.
pub open spec fn opt_cat(pre: Seq<Command>, rest: Option<Seq<Command>>) -> Option<Seq<Command>> {
    match rest {
        Some(s) => Some(pre + s),
        None => None,
    }
}

/// Interprets a packed geometry stream into its command sequence,
/// reporting a malformed stream instead of reading out of bounds.
pub fn parse_commands(geometry: &Vec<u32>) -> (r: Result<Vec<Command>, DecodeError>)
    ensures
        match r {
            Ok(cmds) => spec_parse_commands(geometry@) == Some(cmds@),
            Err(e) => e == DecodeError::MalformedCommandStream && spec_parse_commands(geometry@)
                is None,
        },
{
    let ghost g = geometry@;
    let n = geometry.len();
    let mut out: Vec<Command> = Vec::new();
    let mut i: usize = 0;
    proof {
        assert(g.skip(0) =~= g);
    }
    while i < n
        invariant
            n == g.len(),
            g == geometry@,
            0 <= i <= n,
            spec_parse_commands(g) == opt_cat(out@, spec_parse_commands(g.skip(i as int))),
        decreases n - i,
    {
        let ghost i0 = i as int;
        let ghost out0 = out@;
        let header = geometry[i];
        let id = header & 0x7;
        let count = header >> 3;
        proof {
            assert(g.skip(i0)[0] == g[i0]);
            assert(g.skip(i0).len() == n - i0);
            assert(header >> 3 <= 0x1fff_ffff) by (bit_vector);
        }
        if id == 7 {
            out.push(Command::ClosePath);
            i = i + 1;
            proof {
                assert(g.skip(i0).skip(1) =~= g.skip(i0 + 1));
                assert(out@ =~= out0 + seq![Command::ClosePath]);
                assert(spec_parse_commands(g) == opt_cat(out@, spec_parse_commands(g.skip(i as int))))
                    by {
                    lemma_opt_cat_assoc(out0, seq![Command::ClosePath], spec_parse_commands(g.skip(i0 + 1)));
                }
            }
        } else if id == 1 || id == 2 {
            let cnt = count as usize;
            if (n - i - 1) / 2 < cnt {
                proof {
                    assert(g.skip(i0).len() < 1 + 2 * (count as int));
                    assert(spec_parse_commands(g.skip(i0)) is None);
                }
                return Err(DecodeError::MalformedCommandStream);
            }
            let mut k: usize = 0;
            while k < cnt
                invariant
                    n == g.len(),
                    g == geometry@,
                    0 <= i < n,
                    i0 == i as int,
                    cnt == count as int,
                    n - i - 1 >= 2 * cnt,
                    0 <= k <= cnt,
                    id == 1 || id == 2,
                    out@ == out0 + block_prefix(g, i0 + 1, id, k as int),
                decreases cnt - k,
            {
                let x = geometry[i + 1 + 2 * k];
                let y = geometry[i + 2 + 2 * k];
                let dx = decode_zigzag(x);
                let dy = decode_zigzag(y);
                if id == 1 {
                    out.push(Command::MoveTo(dx, dy));
                } else {
                    out.push(Command::LineTo(dx, dy));
                }
                proof {
                    assert(block_prefix(g, i0 + 1, id, k as int + 1) =~= block_prefix(
                        g,
                        i0 + 1,
                        id,
                        k as int,
                    ).push(pair_command(id, g[i0 + 1 + 2 * (k as int)], g[i0 + 2 + 2 * (k as int)])));
                    assert(out@ =~= out0 + block_prefix(g, i0 + 1, id, k as int + 1));
                }
                k = k + 1;
            }
            i = i + 1 + 2 * cnt;
            proof {
                let c = count as int;
                assert(g.skip(i0).skip(1 + 2 * c) =~= g.skip(i0 + 1 + 2 * c));
                assert(block_prefix(g.skip(i0), 1, id, c) =~= block_prefix(g, i0 + 1, id, c));
                assert(spec_parse_commands(g) == opt_cat(out@, spec_parse_commands(g.skip(i as int))))
                    by {
                    lemma_opt_cat_assoc(out0, block_prefix(g, i0 + 1, id, c), spec_parse_commands(g.skip(i0 + 1 + 2 * c)));
                }
            }
        } else {
            proof {
                assert(spec_parse_commands(g.skip(i0)) is None);
            }
            return Err(DecodeError::MalformedCommandStream);
        }
    }
    proof {
        assert(g.skip(n as int) =~= Seq::<u32>::empty());
        assert(g.skip(n as int).len() == 0);
        assert(out@ + Seq::<Command>::empty() =~= out@);
    }
    Ok(out)
}

pub(crate) proof fn lemma_opt_cat_assoc(a: Seq<Command>, b: Seq<Command>, rest: Option<Seq<Command>>)
    ensures
        opt_cat(a + b, rest) == opt_cat(a, opt_cat(b, rest)),
{
    match rest {
        Some(s) => {
            assert((a + b) + s =~= a + (b + s));
        },
        None => {},
    }
}

} // verus!
