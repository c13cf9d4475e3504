//! Lossless serialization of a scene.
//!
//! The wire form is binary and fixed-width: a 64-bit agent count, then one
//! record per agent — a one-byte variant tag followed by the agent's state
//! and goal scalars, each as the two's-complement bits of the `i64` in
//! little-endian order. Decoding accepts exactly the encodings of scenes
//! and returns nothing on any malformed input; the round trip is proved
//! lossless below.

use vstd::bytes::lemma_auto_spec_u64_to_from_le_bytes;
use vstd::bytes::spec_u64_from_le_bytes;
use vstd::bytes::spec_u64_to_le_bytes;
use vstd::bytes::u64_from_le_bytes;
use vstd::bytes::u64_to_le_bytes;
use vstd::prelude::*;
use vstd::slice::slice_subrange;

use crate::accel_diff_drive::{AccelDiffDriveAgent, AccelState};
use crate::agent::Pose;
use crate::diff_drive::DiffDriveAgent;
use crate::scene::{Scene, SceneAgent};

verus! {

/// A scalar on the wire: the two's-complement bits of the `i64`,
/// little-endian.
pub open spec fn spec_scalar_bytes(v: i64) -> Seq<u8> {
    spec_u64_to_le_bytes(v as u64)
}

/// The scalar stored at byte offset `off`.
pub open spec fn spec_scalar_at(b: Seq<u8>, off: int) -> i64 {
    spec_u64_from_le_bytes(b.subrange(off, off + 8)) as i64
}

/// Casting a scalar to its bits and back loses nothing.
pub proof fn lemma_scalar_bits_round(v: i64)
    ensures
        ((v as u64) as i64) == v,
{
    assert(((v as u64) as i64) == v) by (bit_vector);
}

/// One agent record: a variant tag, then the state scalars, then the goal
/// scalars.
pub open spec fn spec_agent_bytes(sa: SceneAgent) -> Seq<u8> {
    match sa {
        SceneAgent::Drive(a) => seq![0u8] + spec_scalar_bytes(a.state.x) + spec_scalar_bytes(
            a.state.y,
        ) + spec_scalar_bytes(a.state.th) + spec_scalar_bytes(a.goal.x) + spec_scalar_bytes(
            a.goal.y,
        ) + spec_scalar_bytes(a.goal.th),
        SceneAgent::Accel(a) => seq![1u8] + spec_scalar_bytes(a.state.x) + spec_scalar_bytes(
            a.state.y,
        ) + spec_scalar_bytes(a.state.th) + spec_scalar_bytes(a.state.v) + spec_scalar_bytes(
            a.state.w,
        ) + spec_scalar_bytes(a.goal.x) + spec_scalar_bytes(a.goal.y) + spec_scalar_bytes(
            a.goal.th,
        ),
    }
}

/// The agent records, in order.
pub open spec fn spec_agents_bytes(s: Seq<SceneAgent>) -> Seq<u8>
    decreases s.len(),
{
    if s.len() == 0 {
        Seq::empty()
    } else {
        spec_agent_bytes(s[0]) + spec_agents_bytes(s.skip(1))
    }
}

/// The whole scene: the agent count, then the records.
pub open spec fn spec_scene_bytes(s: Scene) -> Seq<u8> {
    spec_u64_to_le_bytes(s.agents@.len() as u64) + spec_agents_bytes(s.agents@)
}

/// One agent record read from the front of `b`, with the number of bytes
/// it occupies; nothing on a bad tag or a short buffer.
pub open spec fn spec_decode_agent(b: Seq<u8>) -> Option<(SceneAgent, int)> {
    if b.len() < 1 {
        None
    } else if b[0] == 0u8 {
        if b.len() < 49 {
            None
        } else {
            Some(
                (
                    SceneAgent::Drive(
                        DiffDriveAgent {
                            state: Pose {
                                x: spec_scalar_at(b, 1),
                                y: spec_scalar_at(b, 9),
                                th: spec_scalar_at(b, 17),
                            },
                            goal: Pose {
                                x: spec_scalar_at(b, 25),
                                y: spec_scalar_at(b, 33),
                                th: spec_scalar_at(b, 41),
                            },
                        },
                    ),
                    49int,
                ),
            )
        }
    } else if b[0] == 1u8 {
        if b.len() < 65 {
            None
        } else {
            Some(
                (
                    SceneAgent::Accel(
                        AccelDiffDriveAgent {
                            state: AccelState {
                                x: spec_scalar_at(b, 1),
                                y: spec_scalar_at(b, 9),
                                th: spec_scalar_at(b, 17),
                                v: spec_scalar_at(b, 25),
                                w: spec_scalar_at(b, 33),
                            },
                            goal: Pose {
                                x: spec_scalar_at(b, 41),
                                y: spec_scalar_at(b, 49),
                                th: spec_scalar_at(b, 57),
                            },
                        },
                    ),
                    65int,
                ),
            )
        }
    } else {
        None
    }
}

/// Exactly `n` agent records filling `b` completely; nothing otherwise.
pub open spec fn spec_decode_agents(b: Seq<u8>, n: nat) -> Option<Seq<SceneAgent>>
    decreases n,
{
    if n == 0 {
        if b.len() == 0 {
            Some(Seq::empty())
        } else {
            None
        }
    } else {
        match spec_decode_agent(b) {
            None => None,
            Some((sa, used)) => match spec_decode_agents(b.skip(used), (n - 1) as nat) {
                None => None,
                Some(rest) => Some(seq![sa] + rest),
            },
        }
    }
}

/// The scene a byte string stands for, if it stands for one.
pub open spec fn spec_decode_scene(b: Seq<u8>) -> Option<Seq<SceneAgent>> {
    if b.len() < 8 {
        None
    } else {
        spec_decode_agents(b.skip(8), spec_u64_from_le_bytes(b.subrange(0, 8)) as nat)
    }
}

/// An agent record is read back as the agent it was written from, whatever
/// follows it.
pub proof fn lemma_agent_bytes_decode(sa: SceneAgent, rest: Seq<u8>)
    ensures
        spec_agent_bytes(sa).len() == (if sa is Drive {
            49int
        } else {
            65int
        }),
        spec_decode_agent(spec_agent_bytes(sa) + rest) == Some(
            (sa, spec_agent_bytes(sa).len() as int),
        ),
{
    lemma_auto_spec_u64_to_from_le_bytes();
    let ab = spec_agent_bytes(sa);
    let b = ab + rest;
    match sa {
        SceneAgent::Drive(a) => {
            assert(b.subrange(1, 9) =~= spec_scalar_bytes(a.state.x));
            assert(b.subrange(9, 17) =~= spec_scalar_bytes(a.state.y));
            assert(b.subrange(17, 25) =~= spec_scalar_bytes(a.state.th));
            assert(b.subrange(25, 33) =~= spec_scalar_bytes(a.goal.x));
            assert(b.subrange(33, 41) =~= spec_scalar_bytes(a.goal.y));
            assert(b.subrange(41, 49) =~= spec_scalar_bytes(a.goal.th));
            lemma_scalar_bits_round(a.state.x);
            lemma_scalar_bits_round(a.state.y);
            lemma_scalar_bits_round(a.state.th);
            lemma_scalar_bits_round(a.goal.x);
            lemma_scalar_bits_round(a.goal.y);
            lemma_scalar_bits_round(a.goal.th);
        },
        SceneAgent::Accel(a) => {
            assert(b.subrange(1, 9) =~= spec_scalar_bytes(a.state.x));
            assert(b.subrange(9, 17) =~= spec_scalar_bytes(a.state.y));
            assert(b.subrange(17, 25) =~= spec_scalar_bytes(a.state.th));
            assert(b.subrange(25, 33) =~= spec_scalar_bytes(a.state.v));
            assert(b.subrange(33, 41) =~= spec_scalar_bytes(a.state.w));
            assert(b.subrange(41, 49) =~= spec_scalar_bytes(a.goal.x));
            assert(b.subrange(49, 57) =~= spec_scalar_bytes(a.goal.y));
            assert(b.subrange(57, 65) =~= spec_scalar_bytes(a.goal.th));
            lemma_scalar_bits_round(a.state.x);
            lemma_scalar_bits_round(a.state.y);
            lemma_scalar_bits_round(a.state.th);
            lemma_scalar_bits_round(a.state.v);
            lemma_scalar_bits_round(a.state.w);
            lemma_scalar_bits_round(a.goal.x);
            lemma_scalar_bits_round(a.goal.y);
            lemma_scalar_bits_round(a.goal.th);
        },
    }
}

/// Any run of agent records is read back as the agents it was written
/// from.
pub proof fn lemma_agents_bytes_decode(s: Seq<SceneAgent>)
    ensures
        spec_decode_agents(spec_agents_bytes(s), s.len()) == Some(s),
    decreases s.len(),
{
    if s.len() == 0 {
        assert(spec_agents_bytes(s).len() == 0);
        assert(Some(Seq::<SceneAgent>::empty()) == Some(s)) by {
            assert(Seq::<SceneAgent>::empty() =~= s);
        }
    } else {
        let first = s[0];
        let tail = s.skip(1);
        let ab = spec_agent_bytes(first);
        let tb = spec_agents_bytes(tail);
        lemma_agent_bytes_decode(first, tb);
        lemma_agents_bytes_decode(tail);
        assert(spec_agents_bytes(s) == ab + tb);
        assert((ab + tb).skip(ab.len() as int) =~= tb);
        assert(seq![first] + tail =~= s);
    }
}

/// Serializing a scene and deserializing the result yields every agent
/// back, each state and goal component exact.
pub proof fn lemma_scene_round_trip(s: Scene)
    requires
        s.agents@.len() < 0x1_0000_0000_0000_0000,
    ensures
        spec_decode_scene(spec_scene_bytes(s)) == Some(s.agents@),
{
    lemma_auto_spec_u64_to_from_le_bytes();
    let nb = spec_u64_to_le_bytes(s.agents@.len() as u64);
    let body = spec_agents_bytes(s.agents@);
    let b = nb + body;
    assert(b.subrange(0, 8) =~= nb);
    assert(b.skip(8) =~= body);
    lemma_agents_bytes_decode(s.agents@);
}

/// Appending one record extends the run of records at its end.
pub proof fn lemma_agents_bytes_push(s: Seq<SceneAgent>, x: SceneAgent)
    ensures
        spec_agents_bytes(s.push(x)) == spec_agents_bytes(s) + spec_agent_bytes(x),
    decreases s.len(),
{
    if s.len() == 0 {
        assert(s.push(x)[0] == x);
        assert(s.push(x).skip(1) =~= Seq::<SceneAgent>::empty());
        assert(spec_agents_bytes(s.push(x)) == spec_agent_bytes(x) + spec_agents_bytes(
            Seq::<SceneAgent>::empty(),
        ));
        assert(spec_agents_bytes(s.push(x)) =~= spec_agent_bytes(x));
        assert(spec_agents_bytes(s) + spec_agent_bytes(x) =~= spec_agent_bytes(x));
    } else {
        lemma_agents_bytes_push(s.skip(1), x);
        assert(s.push(x).skip(1) =~= s.skip(1).push(x));
        assert(s.push(x)[0] == s[0]);
        assert(spec_agents_bytes(s.push(x)) == spec_agent_bytes(s[0]) + (spec_agents_bytes(
            s.skip(1),
        ) + spec_agent_bytes(x)));
        assert(spec_agent_bytes(s[0]) + (spec_agents_bytes(s.skip(1)) + spec_agent_bytes(x)) =~= (
        spec_agent_bytes(s[0]) + spec_agents_bytes(s.skip(1))) + spec_agent_bytes(x));
        assert(spec_agents_bytes(s) == spec_agent_bytes(s[0]) + spec_agents_bytes(s.skip(1)));
    }
}

/// Append one scalar to the buffer.
fn push_scalar(out: &mut Vec<u8>, v: i64)
    ensures
        final(out)@ == old(out)@ + spec_scalar_bytes(v),
{
    let mut bs = u64_to_le_bytes(v as u64);
    out.append(&mut bs);
}

/// Append one agent record to the buffer.
fn push_agent(out: &mut Vec<u8>, sa: &SceneAgent)
    ensures
        final(out)@ == old(out)@ + spec_agent_bytes(*sa),
{
    match sa {
        SceneAgent::Drive(a) => {
            out.push(0u8);
            push_scalar(out, a.state.x);
            push_scalar(out, a.state.y);
            push_scalar(out, a.state.th);
            push_scalar(out, a.goal.x);
            push_scalar(out, a.goal.y);
            push_scalar(out, a.goal.th);
            proof {
                assert(out@ =~= old(out)@ + spec_agent_bytes(*sa));
            }
        },
        SceneAgent::Accel(a) => {
            out.push(1u8);
            push_scalar(out, a.state.x);
            push_scalar(out, a.state.y);
            push_scalar(out, a.state.th);
            push_scalar(out, a.state.v);
            push_scalar(out, a.state.w);
            push_scalar(out, a.goal.x);
            push_scalar(out, a.goal.y);
            push_scalar(out, a.goal.th);
            proof {
                assert(out@ =~= old(out)@ + spec_agent_bytes(*sa));
            }
        },
    }
}

/// Read the scalar stored at byte offset `off`.
fn read_scalar(bytes: &Vec<u8>, off: usize) -> (r: i64)
    requires
        off + 8 <= bytes@.len(),
    ensures
        r == (spec_u64_from_le_bytes(bytes@.subrange(off as int, off as int + 8)) as i64),
{
    let n = bytes.len();
    let u = u64_from_le_bytes(slice_subrange(bytes.as_slice(), off, off + 8));
    #[verifier::truncate] (u as i64)
}

impl Scene {
    /// Serialize the scene: the agent count, then one record per agent.
    pub fn save(&self) -> (r: Vec<u8>)
        ensures
            r@ == spec_scene_bytes(*self),
    {
        let n = self.agents.len();
        let mut out = u64_to_le_bytes(n as u64);
        let mut i: usize = 0;
        while i < n
            invariant
                i <= n,
                n == self.agents@.len(),
                out@ == spec_u64_to_le_bytes(n as u64) + spec_agents_bytes(
                    self.agents@.take(i as int),
                ),
            decreases n - i,
        {
            let sa = self.agents[i];
            push_agent(&mut out, &sa);
            proof {
                assert(self.agents@.take(i as int + 1) =~= self.agents@.take(i as int).push(
                    self.agents@[i as int],
                ));
                lemma_agents_bytes_push(self.agents@.take(i as int), self.agents@[i as int]);
                assert(out@ =~= spec_u64_to_le_bytes(n as u64) + spec_agents_bytes(
                    self.agents@.take(i as int + 1),
                ));
            }
            i = i + 1;
        }
        proof {
            assert(self.agents@.take(n as int) =~= self.agents@);
        }
        out
    }

    /// Parse a serialized scene. Any malformed input — a short buffer, a
    /// bad tag, trailing bytes — yields nothing: there is no partial scene.
    pub fn load(bytes: &Vec<u8>) -> (r: Option<Scene>)
        ensures
            match r {
                Some(s) => spec_decode_scene(bytes@) == Some(s.agents@),
                None => spec_decode_scene(bytes@) is None,
            },
    {
        if bytes.len() < 8 {
            return None;
        }
        let count = u64_from_le_bytes(slice_subrange(bytes.as_slice(), 0, 8));
        let mut agents: Vec<SceneAgent> = Vec::new();
        let mut pos: usize = 8;
        let mut remaining: u64 = count;
        while remaining > 0
            invariant
                8 <= pos <= bytes@.len(),
                count == spec_u64_from_le_bytes(bytes@.subrange(0, 8)),
                (match spec_decode_agents(bytes@.skip(pos as int), remaining as nat) {
                    Some(rest) => spec_decode_agents(bytes@.skip(8), count as nat) == Some(
                        agents@ + rest,
                    ),
                    None => spec_decode_agents(bytes@.skip(8), count as nat) is None,
                }),
            decreases remaining,
        {
            let ghost sb = bytes@.skip(pos as int);
            if bytes.len() - pos < 1 {
                return None;
            }
            let tag = bytes[pos];
            proof {
                assert(sb[0] == bytes@[pos as int]);
            }
            if tag == 0u8 {
                if bytes.len() - pos < 49 {
                    return None;
                }
                let sx = read_scalar(bytes, pos + 1);
                let sy = read_scalar(bytes, pos + 9);
                let sth = read_scalar(bytes, pos + 17);
                let gx = read_scalar(bytes, pos + 25);
                let gy = read_scalar(bytes, pos + 33);
                let gth = read_scalar(bytes, pos + 41);
                let a = SceneAgent::Drive(
                    DiffDriveAgent {
                        state: Pose { x: sx, y: sy, th: sth },
                        goal: Pose { x: gx, y: gy, th: gth },
                    },
                );
                proof {
                    assert(sb.subrange(1, 9) =~= bytes@.subrange(pos as int + 1, pos as int + 9));
                    assert(sb.subrange(9, 17) =~= bytes@.subrange(pos as int + 9, pos as int + 17));
                    assert(sb.subrange(17, 25) =~= bytes@.subrange(
                        pos as int + 17,
                        pos as int + 25,
                    ));
                    assert(sb.subrange(25, 33) =~= bytes@.subrange(
                        pos as int + 25,
                        pos as int + 33,
                    ));
                    assert(sb.subrange(33, 41) =~= bytes@.subrange(
                        pos as int + 33,
                        pos as int + 41,
                    ));
                    assert(sb.subrange(41, 49) =~= bytes@.subrange(
                        pos as int + 41,
                        pos as int + 49,
                    ));
                    assert(spec_decode_agent(sb) == Some((a, 49int)));
                    assert(sb.skip(49) =~= bytes@.skip(pos as int + 49));
                    assert(agents@.push(a) =~= agents@ + seq![a]);
                    if let Some(rest) = spec_decode_agents(
                        bytes@.skip(pos as int + 49),
                        (remaining - 1) as nat,
                    ) {
                        assert(agents@ + (seq![a] + rest) =~= (agents@ + seq![a]) + rest);
                    }
                }
                agents.push(a);
                pos = pos + 49;
                remaining = remaining - 1;
            } else if tag == 1u8 {
                if bytes.len() - pos < 65 {
                    return None;
                }
                let sx = read_scalar(bytes, pos + 1);
                let sy = read_scalar(bytes, pos + 9);
                let sth = read_scalar(bytes, pos + 17);
                let sv = read_scalar(bytes, pos + 25);
                let sw = read_scalar(bytes, pos + 33);
                let gx = read_scalar(bytes, pos + 41);
                let gy = read_scalar(bytes, pos + 49);
                let gth = read_scalar(bytes, pos + 57);
                let a = SceneAgent::Accel(
                    AccelDiffDriveAgent {
                        state: AccelState { x: sx, y: sy, th: sth, v: sv, w: sw },
                        goal: Pose { x: gx, y: gy, th: gth },
                    },
                );
                proof {
                    assert(sb.subrange(1, 9) =~= bytes@.subrange(pos as int + 1, pos as int + 9));
                    assert(sb.subrange(9, 17) =~= bytes@.subrange(pos as int + 9, pos as int + 17));
                    assert(sb.subrange(17, 25) =~= bytes@.subrange(
                        pos as int + 17,
                        pos as int + 25,
                    ));
                    assert(sb.subrange(25, 33) =~= bytes@.subrange(
                        pos as int + 25,
                        pos as int + 33,
                    ));
                    assert(sb.subrange(33, 41) =~= bytes@.subrange(
                        pos as int + 33,
                        pos as int + 41,
                    ));
                    assert(sb.subrange(41, 49) =~= bytes@.subrange(
                        pos as int + 41,
                        pos as int + 49,
                    ));
                    assert(sb.subrange(49, 57) =~= bytes@.subrange(
                        pos as int + 49,
                        pos as int + 57,
                    ));
                    assert(sb.subrange(57, 65) =~= bytes@.subrange(
                        pos as int + 57,
                        pos as int + 65,
                    ));
                    assert(spec_decode_agent(sb) == Some((a, 65int)));
                    assert(sb.skip(65) =~= bytes@.skip(pos as int + 65));
                    assert(agents@.push(a) =~= agents@ + seq![a]);
                    if let Some(rest) = spec_decode_agents(
                        bytes@.skip(pos as int + 65),
                        (remaining - 1) as nat,
                    ) {
                        assert(agents@ + (seq![a] + rest) =~= (agents@ + seq![a]) + rest);
                    }
                }
                agents.push(a);
                pos = pos + 65;
                remaining = remaining - 1;
            } else {
                return None;
            }
        }
        if pos == bytes.len() {
            proof {
                assert(bytes@.skip(pos as int).len() == 0);
                assert(agents@ + Seq::<SceneAgent>::empty() =~= agents@);
            }
            Some(Scene { agents })
        } else {
            proof {
                assert(bytes@.skip(pos as int).len() > 0);
            }
            None
        }
    }
}

} // verus!
