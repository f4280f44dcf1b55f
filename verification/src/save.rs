//! The save file: one compact JSON object holding the tunable
//! parameters, the balances, and the per-upgrade purchase counts, all
//! numbers in plain decimal and big counters as decimal strings.
//!
//! The writer emits exactly [`spec_save_bytes`]; the reader accepts a
//! byte string exactly when it is such an encoding, and then returns the
//! encoded snapshot. Reading anything else fails, and callers fall back
//! to a fresh game.

use vstd::prelude::*;
use vstd::string::StringExecFns;
use vstd::string::StringSliceAdditionalSpecFns;
use crate::core_elements::{CoreParameters, CoreState, FILL_SCALE_PPM, MAX_UPGRADE_COUNT};
use crate::digits::{
    dec_bytes, digits_from_u64, digits_value, digits_wf, is_dec_digit, lemma_dec_bytes_align,
    lemma_dec_bytes_of_digits, lemma_digits_value_split, lemma_pow10_positive, pow10,
};
use crate::game_value::{dec_chars, digit_char, GameUInt};

verus! {

/// The save buffer of the host: encodings are expected to stay under this.
pub const SAVE_BUFFER_SIZE: usize = 1024;

/// Everything one save slot persists.
#[derive(Debug)]
pub struct SaveState {
    pub parameters: CoreParameters,
    pub state: CoreState,
    pub menu_counts: Vec<u64>,
}

impl SaveState {
    pub open spec fn wf(&self) -> bool {
        &&& self.parameters.wf()
        &&& self.state.wf()
        &&& self.menu_counts@.len() == 4
    }

    /// Field-for-field agreement of two snapshots, up to counter values.
    pub open spec fn agrees_with(&self, other: &SaveState) -> bool {
        &&& self.parameters.knead_tick_size == other.parameters.knead_tick_size
        &&& self.parameters.pasta_price@ == other.parameters.pasta_price@
        &&& self.parameters.auto_crank_level == other.parameters.auto_crank_level
        &&& self.parameters.auto_knead_level == other.parameters.auto_knead_level
        &&& self.state.money@ == other.state.money@
        &&& self.state.diamonds@ == other.state.diamonds@
        &&& self.state.dough_balls@ == other.state.dough_balls@
        &&& self.menu_counts@ == other.menu_counts@
    }
}

/// The exact byte layout of a save file.
pub open spec fn spec_save_bytes(s: &SaveState) -> Seq<u8> {
    "{\"parameters\":{\"knead_tick_size\":".spec_bytes() + dec_bytes(
        s.parameters.knead_tick_size as nat,
    ) + ",\"pasta_price\":\"".spec_bytes() + dec_bytes(s.parameters.pasta_price@)
        + "\",\"auto_crank_level\":".spec_bytes() + dec_bytes(s.parameters.auto_crank_level as nat)
        + ",\"auto_knead_level\":".spec_bytes() + dec_bytes(s.parameters.auto_knead_level as nat)
        + "},\"state\":{\"money\":\"".spec_bytes() + dec_bytes(s.state.money@)
        + "\",\"diamonds\":\"".spec_bytes() + dec_bytes(s.state.diamonds@)
        + "\",\"dough_balls\":\"".spec_bytes() + dec_bytes(s.state.dough_balls@)
        + "\"},\"menu_counts\":[".spec_bytes() + dec_bytes(s.menu_counts@[0] as nat)
        + ",".spec_bytes() + dec_bytes(s.menu_counts@[1] as nat) + ",".spec_bytes() + dec_bytes(
        s.menu_counts@[2] as nat,
    ) + ",".spec_bytes() + dec_bytes(s.menu_counts@[3] as nat) + "]}".spec_bytes()
}

/// Append a literal chunk of the format.
fn push_literal(out: &mut Vec<u8>, s: &str)
    ensures
        final(out)@ == old(out)@ + s.spec_bytes(),
{
    let b: &[u8] = s.as_bytes();
    let mut i: usize = 0;
    while i < b.len()
        invariant
            i <= b@.len(),
            b@ == s.spec_bytes(),
            out@ =~= old(out)@ + b@.take(i as int),
        decreases b@.len() - i,
    {
        out.push(b[i]);
        i = i + 1;
    }
    proof {
        assert(out@ =~= old(out)@ + b@);
    }
}

/// Append the decimal rendering of a digit vector.
fn push_dec_digits(out: &mut Vec<u8>, ds: &Vec<u8>)
    requires
        digits_wf(ds@),
    ensures
        final(out)@ == old(out)@ + dec_bytes(digits_value(ds@)),
{
    proof {
        lemma_dec_bytes_of_digits(ds@);
    }
    if ds.len() == 0 {
        out.push(48);
        proof {
            assert(out@ =~= old(out)@ + dec_bytes(digits_value(ds@)));
        }
        return ;
    }
    let ghost target = dec_bytes(digits_value(ds@));
    let len = ds.len();
    let mut i: usize = 0;
    while i < len
        invariant
            i <= len,
            len == ds@.len(),
            digits_wf(ds@),
            target == dec_bytes(digits_value(ds@)),
            target =~= Seq::new(ds@.len(), |k: int| (ds@[ds@.len() - 1 - k] + 48) as u8),
            out@ =~= old(out)@ + target.take(i as int),
        decreases len - i,
    {
        proof {
            assert(ds@[len - 1 - i as int] < 10);
            assert(target[i as int] == ds@[len - 1 - i as int] + 48);
            assert(target.take(i + 1) =~= target.take(i as int).push(target[i as int]));
        }
        out.push(ds[len - 1 - i] + 48);
        i = i + 1;
    }
    proof {
        assert(target.take(len as int) =~= target);
        assert(out@ =~= old(out)@ + dec_bytes(digits_value(ds@)));
    }
}

/// Append the decimal rendering of a machine integer.
fn push_dec_u64(out: &mut Vec<u8>, x: u64)
    ensures
        final(out)@ == old(out)@ + dec_bytes(x as nat),
{
    let ds = digits_from_u64(x);
    push_dec_digits(out, &ds);
}

/// Append the decimal rendering of a big counter.
fn push_dec_big(out: &mut Vec<u8>, g: &GameUInt)
    requires
        g.wf(),
    ensures
        final(out)@ == old(out)@ + dec_bytes(g@),
{
    let ds = g.get();
    push_dec_digits(out, &ds);
}

/// Serialize a snapshot: the result is exactly [`spec_save_bytes`].
pub fn encode_save(s: &SaveState) -> (r: Vec<u8>)
    requires
        s.wf(),
    ensures
        r@ == spec_save_bytes(s),
{
    let mut out: Vec<u8> = Vec::new();
    push_literal(&mut out, "{\"parameters\":{\"knead_tick_size\":");
    push_dec_u64(&mut out, s.parameters.knead_tick_size);
    push_literal(&mut out, ",\"pasta_price\":\"");
    push_dec_big(&mut out, &s.parameters.pasta_price);
    push_literal(&mut out, "\",\"auto_crank_level\":");
    push_dec_u64(&mut out, s.parameters.auto_crank_level);
    push_literal(&mut out, ",\"auto_knead_level\":");
    push_dec_u64(&mut out, s.parameters.auto_knead_level);
    push_literal(&mut out, "},\"state\":{\"money\":\"");
    push_dec_big(&mut out, &s.state.money);
    push_literal(&mut out, "\",\"diamonds\":\"");
    push_dec_big(&mut out, &s.state.diamonds);
    push_literal(&mut out, "\",\"dough_balls\":\"");
    push_dec_big(&mut out, &s.state.dough_balls);
    push_literal(&mut out, "\"},\"menu_counts\":[");
    push_dec_u64(&mut out, s.menu_counts[0]);
    push_literal(&mut out, ",");
    push_dec_u64(&mut out, s.menu_counts[1]);
    push_literal(&mut out, ",");
    push_dec_u64(&mut out, s.menu_counts[2]);
    push_literal(&mut out, ",");
    push_dec_u64(&mut out, s.menu_counts[3]);
    push_literal(&mut out, "]}");
    proof {
        assert(out@ =~= spec_save_bytes(s));
    }
    out
}

/// The save file name of one slot.
pub fn save_filename(idx: usize) -> (r: String)
    ensures
        r@ == "PastaCranker-savefile."@ + dec_chars(idx as nat) + ".json"@,
{
    let mut name = String::new();
    name.append("PastaCranker-savefile.");
    let ds = digits_from_u64(idx as u64);
    proof {
        crate::digits::lemma_digits_of_value(ds@);
    }
    if ds.len() == 0 {
        crate::game_value::push_digit(&mut name, 0);
        proof {
            assert(name@ =~= "PastaCranker-savefile."@ + dec_chars(idx as nat));
        }
    } else {
        let ghost target = dec_chars(idx as nat);
        let len = ds.len();
        let mut i: usize = 0;
        proof {
            assert(target =~= Seq::new(ds@.len(), |k: int| digit_char(ds@[ds@.len() - 1 - k])));
        }
        while i < len
            invariant
                i <= len,
                len == ds@.len(),
                digits_wf(ds@),
                target =~= Seq::new(ds@.len(), |k: int| digit_char(ds@[ds@.len() - 1 - k])),
                name@ =~= "PastaCranker-savefile."@ + target.take(i as int),
            decreases len - i,
        {
            proof {
                assert(ds@[len - 1 - i as int] < 10);
                assert(target[i as int] == digit_char(ds@[len - 1 - i as int]));
                assert(target.take(i + 1) =~= target.take(i as int).push(target[i as int]));
            }
            crate::game_value::push_digit(&mut name, ds[len - 1 - i]);
            i = i + 1;
        }
        proof {
            assert(target.take(len as int) =~= target);
            assert(name@ =~= "PastaCranker-savefile."@ + dec_chars(idx as nat));
        }
    }
    name.append(".json");
    name
}


/// One piece of the save layout: a fixed chunk or a decimal number.
pub enum SavePiece {
    Lit(Seq<u8>),
    Num(nat),
}

pub open spec fn piece_bytes(p: SavePiece) -> Seq<u8> {
    match p {
        SavePiece::Lit(l) => l,
        SavePiece::Num(n) => dec_bytes(n),
    }
}

pub open spec fn render_pieces(ps: Seq<SavePiece>) -> Seq<u8>
    decreases ps.len(),
{
    if ps.len() == 0 {
        Seq::empty()
    } else {
        piece_bytes(ps[0]) + render_pieces(ps.drop_first())
    }
}

/// A piece list where chunks separate the numbers: every chunk is
/// non-empty and starts with something other than a digit, and no two
/// numbers touch.
pub open spec fn pieces_wf(ps: Seq<SavePiece>) -> bool {
    &&& forall|i: int|
        0 <= i < ps.len() ==> ((#[trigger] ps[i]) is Lit ==> ps[i]->Lit_0.len() > 0
            && !is_dec_digit(ps[i]->Lit_0[0]))
    &&& forall|i: int|
        0 <= i < ps.len() - 1 ==> ((#[trigger] ps[i]) is Num ==> ps[i + 1] is Lit)
}

/// The same chunk skeleton: numbers may differ, chunks may not.
pub open spec fn pieces_match(pa: Seq<SavePiece>, pb: Seq<SavePiece>) -> bool {
    &&& pa.len() == pb.len()
    &&& forall|i: int|
        0 <= i < pa.len() ==> (((#[trigger] pa[i]) is Lit) == ((#[trigger] pb[i]) is Lit) && (
        pa[i] is Lit ==> pa[i] == pb[i]))
}

/// Rendering is injective over the numbers: two piece lists with the
/// same chunk skeleton and the same bytes carry the same numbers.
pub proof fn lemma_render_injective(pa: Seq<SavePiece>, pb: Seq<SavePiece>)
    requires
        pieces_wf(pa),
        pieces_wf(pb),
        pieces_match(pa, pb),
        render_pieces(pa) == render_pieces(pb),
    ensures
        pa =~= pb,
    decreases pa.len(),
{
    if pa.len() == 0 {
    } else {
        let w = render_pieces(pa);
        let ra = pa.drop_first();
        let rb = pb.drop_first();
        assert(pieces_wf(ra)) by {
            assert(forall|i: int| 0 <= i < ra.len() ==> #[trigger] ra[i] == pa[i + 1]);
        }
        assert(pieces_wf(rb)) by {
            assert(forall|i: int| 0 <= i < rb.len() ==> #[trigger] rb[i] == pb[i + 1]);
        }
        assert(pieces_match(ra, rb)) by {
            assert(forall|i: int| 0 <= i < ra.len() ==> #[trigger] ra[i] == pa[i + 1]);
            assert(forall|i: int| 0 <= i < rb.len() ==> #[trigger] rb[i] == pb[i + 1]);
        }
        if pa[0] is Lit {
            let l = pa[0]->Lit_0;
            assert(pb[0]->Lit_0 == l);
            assert(render_pieces(ra) =~= w.subrange(l.len() as int, w.len() as int));
            assert(render_pieces(rb) =~= w.subrange(l.len() as int, w.len() as int));
            lemma_render_injective(ra, rb);
            assert(pa =~= seq![pa[0]] + ra);
            assert(pb =~= seq![pb[0]] + rb);
        } else {
            let na = pa[0]->Num_0;
            let nb = pb[0]->Num_0;
            let la = dec_bytes(na).len() as int;
            let lb = dec_bytes(nb).len() as int;
            assert(w.subrange(0, la) =~= dec_bytes(na));
            assert(w.subrange(0, lb) =~= dec_bytes(nb));
            if ra.len() == 0 {
                assert(render_pieces(ra) =~= Seq::<u8>::empty());
                assert(la == w.len());
            } else {
                assert(ra[0] == pa[1]);
                assert(pa[1] is Lit);
                let l1 = ra[0]->Lit_0;
                assert(render_pieces(ra)[0] == l1[0]);
                assert(w[la] == render_pieces(ra)[0]);
                assert(!is_dec_digit(w[la]));
            }
            if rb.len() == 0 {
                assert(render_pieces(rb) =~= Seq::<u8>::empty());
                assert(lb == w.len());
            } else {
                assert(rb[0] == pb[1]);
                assert(pb[1] is Lit);
                let l1 = rb[0]->Lit_0;
                assert(render_pieces(rb)[0] == l1[0]);
                assert(w[lb] == render_pieces(rb)[0]);
                assert(!is_dec_digit(w[lb]));
            }
            lemma_dec_bytes_align(w, 0, na, nb);
            assert(render_pieces(ra) =~= w.subrange(la, w.len() as int));
            assert(render_pieces(rb) =~= w.subrange(la, w.len() as int));
            lemma_render_injective(ra, rb);
            assert(pa =~= seq![pa[0]] + ra);
            assert(pb =~= seq![pb[0]] + rb);
        }
    }
}

/// The save layout as a piece list.
pub open spec fn save_pieces(s: &SaveState) -> Seq<SavePiece> {
    Seq::new(
        23,
        |i: int|
            if i == 0 {
                SavePiece::Lit("{\"parameters\":{\"knead_tick_size\":".spec_bytes())
            } else if i == 1 {
                SavePiece::Num(s.parameters.knead_tick_size as nat)
            } else if i == 2 {
                SavePiece::Lit(",\"pasta_price\":\"".spec_bytes())
            } else if i == 3 {
                SavePiece::Num(s.parameters.pasta_price@)
            } else if i == 4 {
                SavePiece::Lit("\",\"auto_crank_level\":".spec_bytes())
            } else if i == 5 {
                SavePiece::Num(s.parameters.auto_crank_level as nat)
            } else if i == 6 {
                SavePiece::Lit(",\"auto_knead_level\":".spec_bytes())
            } else if i == 7 {
                SavePiece::Num(s.parameters.auto_knead_level as nat)
            } else if i == 8 {
                SavePiece::Lit("},\"state\":{\"money\":\"".spec_bytes())
            } else if i == 9 {
                SavePiece::Num(s.state.money@)
            } else if i == 10 {
                SavePiece::Lit("\",\"diamonds\":\"".spec_bytes())
            } else if i == 11 {
                SavePiece::Num(s.state.diamonds@)
            } else if i == 12 {
                SavePiece::Lit("\",\"dough_balls\":\"".spec_bytes())
            } else if i == 13 {
                SavePiece::Num(s.state.dough_balls@)
            } else if i == 14 {
                SavePiece::Lit("\"},\"menu_counts\":[".spec_bytes())
            } else if i == 15 {
                SavePiece::Num(s.menu_counts@[0] as nat)
            } else if i == 16 {
                SavePiece::Lit(",".spec_bytes())
            } else if i == 17 {
                SavePiece::Num(s.menu_counts@[1] as nat)
            } else if i == 18 {
                SavePiece::Lit(",".spec_bytes())
            } else if i == 19 {
                SavePiece::Num(s.menu_counts@[2] as nat)
            } else if i == 20 {
                SavePiece::Lit(",".spec_bytes())
            } else if i == 21 {
                SavePiece::Num(s.menu_counts@[3] as nat)
            } else {
                SavePiece::Lit("]}".spec_bytes())
            },
    )
}

/// Concrete shape facts about the format's chunk literals.
proof fn lemma_save_literals()
    ensures
        "{\"parameters\":{\"knead_tick_size\":".spec_bytes().len() > 0,
        !is_dec_digit("{\"parameters\":{\"knead_tick_size\":".spec_bytes()[0]),
        ",\"pasta_price\":\"".spec_bytes().len() > 0,
        !is_dec_digit(",\"pasta_price\":\"".spec_bytes()[0]),
        "\",\"auto_crank_level\":".spec_bytes().len() > 0,
        !is_dec_digit("\",\"auto_crank_level\":".spec_bytes()[0]),
        ",\"auto_knead_level\":".spec_bytes().len() > 0,
        !is_dec_digit(",\"auto_knead_level\":".spec_bytes()[0]),
        "},\"state\":{\"money\":\"".spec_bytes().len() > 0,
        !is_dec_digit("},\"state\":{\"money\":\"".spec_bytes()[0]),
        "\",\"diamonds\":\"".spec_bytes().len() > 0,
        !is_dec_digit("\",\"diamonds\":\"".spec_bytes()[0]),
        "\",\"dough_balls\":\"".spec_bytes().len() > 0,
        !is_dec_digit("\",\"dough_balls\":\"".spec_bytes()[0]),
        "\"},\"menu_counts\":[".spec_bytes().len() > 0,
        !is_dec_digit("\"},\"menu_counts\":[".spec_bytes()[0]),
        ",".spec_bytes().len() > 0,
        !is_dec_digit(",".spec_bytes()[0]),
        "]}".spec_bytes().len() > 0,
        !is_dec_digit("]}".spec_bytes()[0]),
{
    broadcast use vstd::string::is_ascii_spec_bytes;

    reveal_strlit("{\"parameters\":{\"knead_tick_size\":");
    reveal_strlit(",\"pasta_price\":\"");
    reveal_strlit("\",\"auto_crank_level\":");
    reveal_strlit(",\"auto_knead_level\":");
    reveal_strlit("},\"state\":{\"money\":\"");
    reveal_strlit("\",\"diamonds\":\"");
    reveal_strlit("\",\"dough_balls\":\"");
    reveal_strlit("\"},\"menu_counts\":[");
    reveal_strlit(",");
    reveal_strlit("]}");
    assert(vstd::string::is_ascii("{\"parameters\":{\"knead_tick_size\":"));
    assert(vstd::string::is_ascii(",\"pasta_price\":\""));
    assert(vstd::string::is_ascii("\",\"auto_crank_level\":"));
    assert(vstd::string::is_ascii(",\"auto_knead_level\":"));
    assert(vstd::string::is_ascii("},\"state\":{\"money\":\""));
    assert(vstd::string::is_ascii("\",\"diamonds\":\""));
    assert(vstd::string::is_ascii("\",\"dough_balls\":\""));
    assert(vstd::string::is_ascii("\"},\"menu_counts\":["));
    assert(vstd::string::is_ascii(","));
    assert(vstd::string::is_ascii("]}"));
}

/// The byte layout and the piece list agree.
#[verifier::rlimit(100)]
proof fn lemma_save_bytes_render(s: &SaveState)
    ensures
        spec_save_bytes(s) == render_pieces(save_pieces(s)),
{
    let ps = save_pieces(s);
    let p0 = "{\"parameters\":{\"knead_tick_size\":".spec_bytes();
    assert(piece_bytes(ps[0]) == p0);
    let p1 = dec_bytes(s.parameters.knead_tick_size as nat);
    assert(piece_bytes(ps[1]) == p1);
    let p2 = ",\"pasta_price\":\"".spec_bytes();
    assert(piece_bytes(ps[2]) == p2);
    let p3 = dec_bytes(s.parameters.pasta_price@);
    assert(piece_bytes(ps[3]) == p3);
    let p4 = "\",\"auto_crank_level\":".spec_bytes();
    assert(piece_bytes(ps[4]) == p4);
    let p5 = dec_bytes(s.parameters.auto_crank_level as nat);
    assert(piece_bytes(ps[5]) == p5);
    let p6 = ",\"auto_knead_level\":".spec_bytes();
    assert(piece_bytes(ps[6]) == p6);
    let p7 = dec_bytes(s.parameters.auto_knead_level as nat);
    assert(piece_bytes(ps[7]) == p7);
    let p8 = "},\"state\":{\"money\":\"".spec_bytes();
    assert(piece_bytes(ps[8]) == p8);
    let p9 = dec_bytes(s.state.money@);
    assert(piece_bytes(ps[9]) == p9);
    let p10 = "\",\"diamonds\":\"".spec_bytes();
    assert(piece_bytes(ps[10]) == p10);
    let p11 = dec_bytes(s.state.diamonds@);
    assert(piece_bytes(ps[11]) == p11);
    let p12 = "\",\"dough_balls\":\"".spec_bytes();
    assert(piece_bytes(ps[12]) == p12);
    let p13 = dec_bytes(s.state.dough_balls@);
    assert(piece_bytes(ps[13]) == p13);
    let p14 = "\"},\"menu_counts\":[".spec_bytes();
    assert(piece_bytes(ps[14]) == p14);
    let p15 = dec_bytes(s.menu_counts@[0] as nat);
    assert(piece_bytes(ps[15]) == p15);
    let p16 = ",".spec_bytes();
    assert(piece_bytes(ps[16]) == p16);
    let p17 = dec_bytes(s.menu_counts@[1] as nat);
    assert(piece_bytes(ps[17]) == p17);
    let p18 = ",".spec_bytes();
    assert(piece_bytes(ps[18]) == p18);
    let p19 = dec_bytes(s.menu_counts@[2] as nat);
    assert(piece_bytes(ps[19]) == p19);
    let p20 = ",".spec_bytes();
    assert(piece_bytes(ps[20]) == p20);
    let p21 = dec_bytes(s.menu_counts@[3] as nat);
    assert(piece_bytes(ps[21]) == p21);
    let p22 = "]}".spec_bytes();
    assert(piece_bytes(ps[22]) == p22);
    assert(ps.skip(23) =~= Seq::<SavePiece>::empty());
    let r23 = Seq::<u8>::empty();
    assert(render_pieces(ps.skip(23)) == r23);
    assert(ps.skip(22).drop_first() =~= ps.skip(23));
    assert(ps.skip(22)[0] == ps[22]);
    let r22 = p22 + r23;
    assert(render_pieces(ps.skip(22)) == r22);
    assert(ps.skip(21).drop_first() =~= ps.skip(22));
    assert(ps.skip(21)[0] == ps[21]);
    let r21 = p21 + r22;
    assert(render_pieces(ps.skip(21)) == r21);
    assert(ps.skip(20).drop_first() =~= ps.skip(21));
    assert(ps.skip(20)[0] == ps[20]);
    let r20 = p20 + r21;
    assert(render_pieces(ps.skip(20)) == r20);
    assert(ps.skip(19).drop_first() =~= ps.skip(20));
    assert(ps.skip(19)[0] == ps[19]);
    let r19 = p19 + r20;
    assert(render_pieces(ps.skip(19)) == r19);
    assert(ps.skip(18).drop_first() =~= ps.skip(19));
    assert(ps.skip(18)[0] == ps[18]);
    let r18 = p18 + r19;
    assert(render_pieces(ps.skip(18)) == r18);
    assert(ps.skip(17).drop_first() =~= ps.skip(18));
    assert(ps.skip(17)[0] == ps[17]);
    let r17 = p17 + r18;
    assert(render_pieces(ps.skip(17)) == r17);
    assert(ps.skip(16).drop_first() =~= ps.skip(17));
    assert(ps.skip(16)[0] == ps[16]);
    let r16 = p16 + r17;
    assert(render_pieces(ps.skip(16)) == r16);
    assert(ps.skip(15).drop_first() =~= ps.skip(16));
    assert(ps.skip(15)[0] == ps[15]);
    let r15 = p15 + r16;
    assert(render_pieces(ps.skip(15)) == r15);
    assert(ps.skip(14).drop_first() =~= ps.skip(15));
    assert(ps.skip(14)[0] == ps[14]);
    let r14 = p14 + r15;
    assert(render_pieces(ps.skip(14)) == r14);
    assert(ps.skip(13).drop_first() =~= ps.skip(14));
    assert(ps.skip(13)[0] == ps[13]);
    let r13 = p13 + r14;
    assert(render_pieces(ps.skip(13)) == r13);
    assert(ps.skip(12).drop_first() =~= ps.skip(13));
    assert(ps.skip(12)[0] == ps[12]);
    let r12 = p12 + r13;
    assert(render_pieces(ps.skip(12)) == r12);
    assert(ps.skip(11).drop_first() =~= ps.skip(12));
    assert(ps.skip(11)[0] == ps[11]);
    let r11 = p11 + r12;
    assert(render_pieces(ps.skip(11)) == r11);
    assert(ps.skip(10).drop_first() =~= ps.skip(11));
    assert(ps.skip(10)[0] == ps[10]);
    let r10 = p10 + r11;
    assert(render_pieces(ps.skip(10)) == r10);
    assert(ps.skip(9).drop_first() =~= ps.skip(10));
    assert(ps.skip(9)[0] == ps[9]);
    let r9 = p9 + r10;
    assert(render_pieces(ps.skip(9)) == r9);
    assert(ps.skip(8).drop_first() =~= ps.skip(9));
    assert(ps.skip(8)[0] == ps[8]);
    let r8 = p8 + r9;
    assert(render_pieces(ps.skip(8)) == r8);
    assert(ps.skip(7).drop_first() =~= ps.skip(8));
    assert(ps.skip(7)[0] == ps[7]);
    let r7 = p7 + r8;
    assert(render_pieces(ps.skip(7)) == r7);
    assert(ps.skip(6).drop_first() =~= ps.skip(7));
    assert(ps.skip(6)[0] == ps[6]);
    let r6 = p6 + r7;
    assert(render_pieces(ps.skip(6)) == r6);
    assert(ps.skip(5).drop_first() =~= ps.skip(6));
    assert(ps.skip(5)[0] == ps[5]);
    let r5 = p5 + r6;
    assert(render_pieces(ps.skip(5)) == r5);
    assert(ps.skip(4).drop_first() =~= ps.skip(5));
    assert(ps.skip(4)[0] == ps[4]);
    let r4 = p4 + r5;
    assert(render_pieces(ps.skip(4)) == r4);
    assert(ps.skip(3).drop_first() =~= ps.skip(4));
    assert(ps.skip(3)[0] == ps[3]);
    let r3 = p3 + r4;
    assert(render_pieces(ps.skip(3)) == r3);
    assert(ps.skip(2).drop_first() =~= ps.skip(3));
    assert(ps.skip(2)[0] == ps[2]);
    let r2 = p2 + r3;
    assert(render_pieces(ps.skip(2)) == r2);
    assert(ps.skip(1).drop_first() =~= ps.skip(2));
    assert(ps.skip(1)[0] == ps[1]);
    let r1 = p1 + r2;
    assert(render_pieces(ps.skip(1)) == r1);
    assert(ps.skip(0).drop_first() =~= ps.skip(1));
    assert(ps.skip(0)[0] == ps[0]);
    let r0 = p0 + r1;
    assert(render_pieces(ps.skip(0)) == r0);
    let l0 = Seq::<u8>::empty();
    let l1 = l0 + p0;
    let l2 = l1 + p1;
    let l3 = l2 + p2;
    let l4 = l3 + p3;
    let l5 = l4 + p4;
    let l6 = l5 + p5;
    let l7 = l6 + p6;
    let l8 = l7 + p7;
    let l9 = l8 + p8;
    let l10 = l9 + p9;
    let l11 = l10 + p10;
    let l12 = l11 + p11;
    let l13 = l12 + p12;
    let l14 = l13 + p13;
    let l15 = l14 + p14;
    let l16 = l15 + p15;
    let l17 = l16 + p16;
    let l18 = l17 + p17;
    let l19 = l18 + p18;
    let l20 = l19 + p19;
    let l21 = l20 + p20;
    let l22 = l21 + p21;
    let l23 = l22 + p22;
    assert(l0 + p0 =~= p0);
    assert(spec_save_bytes(s) == l23);
    assert(l23 + r23 =~= l23);
    vstd::seq_lib::lemma_concat_associative(l22, p22, r23);
    assert(l23 + r23 == l22 + r22);
    vstd::seq_lib::lemma_concat_associative(l21, p21, r22);
    assert(l22 + r22 == l21 + r21);
    vstd::seq_lib::lemma_concat_associative(l20, p20, r21);
    assert(l21 + r21 == l20 + r20);
    vstd::seq_lib::lemma_concat_associative(l19, p19, r20);
    assert(l20 + r20 == l19 + r19);
    vstd::seq_lib::lemma_concat_associative(l18, p18, r19);
    assert(l19 + r19 == l18 + r18);
    vstd::seq_lib::lemma_concat_associative(l17, p17, r18);
    assert(l18 + r18 == l17 + r17);
    vstd::seq_lib::lemma_concat_associative(l16, p16, r17);
    assert(l17 + r17 == l16 + r16);
    vstd::seq_lib::lemma_concat_associative(l15, p15, r16);
    assert(l16 + r16 == l15 + r15);
    vstd::seq_lib::lemma_concat_associative(l14, p14, r15);
    assert(l15 + r15 == l14 + r14);
    vstd::seq_lib::lemma_concat_associative(l13, p13, r14);
    assert(l14 + r14 == l13 + r13);
    vstd::seq_lib::lemma_concat_associative(l12, p12, r13);
    assert(l13 + r13 == l12 + r12);
    vstd::seq_lib::lemma_concat_associative(l11, p11, r12);
    assert(l12 + r12 == l11 + r11);
    vstd::seq_lib::lemma_concat_associative(l10, p10, r11);
    assert(l11 + r11 == l10 + r10);
    vstd::seq_lib::lemma_concat_associative(l9, p9, r10);
    assert(l10 + r10 == l9 + r9);
    vstd::seq_lib::lemma_concat_associative(l8, p8, r9);
    assert(l9 + r9 == l8 + r8);
    vstd::seq_lib::lemma_concat_associative(l7, p7, r8);
    assert(l8 + r8 == l7 + r7);
    vstd::seq_lib::lemma_concat_associative(l6, p6, r7);
    assert(l7 + r7 == l6 + r6);
    vstd::seq_lib::lemma_concat_associative(l5, p5, r6);
    assert(l6 + r6 == l5 + r5);
    vstd::seq_lib::lemma_concat_associative(l4, p4, r5);
    assert(l5 + r5 == l4 + r4);
    vstd::seq_lib::lemma_concat_associative(l3, p3, r4);
    assert(l4 + r4 == l3 + r3);
    vstd::seq_lib::lemma_concat_associative(l2, p2, r3);
    assert(l3 + r3 == l2 + r2);
    vstd::seq_lib::lemma_concat_associative(l1, p1, r2);
    assert(l2 + r2 == l1 + r1);
    vstd::seq_lib::lemma_concat_associative(l0, p0, r1);
    assert(l1 + r1 == l0 + r0);
    assert(l0 + r0 =~= r0);
    assert(ps.skip(0) =~= ps);
    assert(spec_save_bytes(s) == render_pieces(ps));
}

/// Two snapshots with one and the same encoding agree field for field:
/// a save file never stands for two different game states.
#[verifier::rlimit(100)]
pub proof fn lemma_save_bytes_injective(a: &SaveState, b: &SaveState)
    requires
        a.wf(),
        b.wf(),
        spec_save_bytes(a) == spec_save_bytes(b),
    ensures
        a.agrees_with(b),
{
    lemma_save_bytes_render(a);
    lemma_save_bytes_render(b);
    lemma_save_literals();
    let pa = save_pieces(a);
    let pb = save_pieces(b);
    lemma_render_injective(pa, pb);
    assert(pa[1] == pb[1]);
    assert(pa[3] == pb[3]);
    assert(pa[5] == pb[5]);
    assert(pa[7] == pb[7]);
    assert(pa[9] == pb[9]);
    assert(pa[11] == pb[11]);
    assert(pa[13] == pb[13]);
    assert(pa[15] == pb[15]);
    assert(pa[17] == pb[17]);
    assert(pa[19] == pb[19]);
    assert(pa[21] == pb[21]);
    assert(a.menu_counts@[0] == b.menu_counts@[0]);
    assert(a.menu_counts@[1] == b.menu_counts@[1]);
    assert(a.menu_counts@[2] == b.menu_counts@[2]);
    assert(a.menu_counts@[3] == b.menu_counts@[3]);
    assert(a.menu_counts@ =~= b.menu_counts@);
}


/// Advance past one expected chunk of the format.
fn eat_lit(buf: &Vec<u8>, pos: usize, pat: &str) -> (r: Option<usize>)
    requires
        pos <= buf@.len(),
    ensures
        r is Some ==> r->Some_0 == pos + pat.spec_bytes().len() && r->Some_0 <= buf@.len()
            && buf@.subrange(pos as int, r->Some_0 as int) == pat.spec_bytes(),
        r is None ==> !(pos + pat.spec_bytes().len() <= buf@.len() && buf@.subrange(
            pos as int,
            pos + pat.spec_bytes().len(),
        ) == pat.spec_bytes()),
{
    let b: &[u8] = pat.as_bytes();
    let buf_len = buf.len();
    if b.len() > buf_len - pos {
        return None;
    }
    let mut i: usize = 0;
    while i < b.len()
        invariant
            i <= b@.len(),
            pos + b@.len() <= buf_len,
            buf_len == buf@.len(),
            b@ == pat.spec_bytes(),
            forall|j: int| 0 <= j < i ==> buf@[pos + j] == b@[j],
        decreases b@.len() - i,
    {
        if buf[pos + i] != b[i] {
            proof {
                let sub = buf@.subrange(pos as int, pos + pat.spec_bytes().len());
                assert(sub[i as int] == buf@[pos + i]);
            }
            return None;
        }
        i = i + 1;
    }
    proof {
        assert(buf@.subrange(pos as int, pos + b@.len()) =~= b@);
    }
    Some(pos + b.len())
}

/// Read one decimal run (no leading zero) into little-endian digits.
fn eat_digits(buf: &Vec<u8>, pos: usize) -> (r: Option<(Vec<u8>, usize)>)
    requires
        pos <= buf@.len(),
    ensures
        r is Some ==> ({
            let (ds, p2) = r->Some_0;
            &&& pos < p2 <= buf@.len()
            &&& digits_wf(ds@)
            &&& buf@.subrange(pos as int, p2 as int) == dec_bytes(digits_value(ds@))
            &&& (p2 == buf@.len() || !is_dec_digit(buf@[p2 as int]))
        }),
        r is None ==> (pos == buf@.len() || !is_dec_digit(buf@[pos as int]) || (buf@[pos as int]
            == 48 && pos + 1 < buf@.len() && is_dec_digit(buf@[pos + 1]))),
{
    if pos == buf.len() {
        return None;
    }
    let first = buf[pos];
    if !(48 <= first && first < 58) {
        return None;
    }
    let mut end: usize = pos + 1;
    while end < buf.len() && 48 <= buf[end] && buf[end] < 58
        invariant
            pos < end <= buf@.len(),
            forall|k: int| pos <= k < end ==> 48 <= #[trigger] buf@[k] < 58,
        decreases buf@.len() - end,
    {
        end = end + 1;
    }
    if first == 48 {
        if end > pos + 1 {
            return None;
        }
        proof {
            assert(buf@.subrange(pos as int, pos + 1) =~= seq![48u8]);
            assert(dec_bytes(0) =~= seq![48u8]);
        }
        return Some((Vec::new(), end));
    }
    let runlen = end - pos;
    let mut ds: Vec<u8> = Vec::new();
    let mut i: usize = 0;
    while i < runlen
        invariant
            i <= runlen,
            runlen == end - pos,
            pos < end <= buf@.len(),
            ds@.len() == i,
            forall|j: int| 0 <= j < i ==> #[trigger] ds@[j] == buf@[end - 1 - j] - 48,
            forall|j: int| 0 <= j < i ==> (#[trigger] ds@[j]) < 10,
            forall|k: int| pos <= k < end ==> 48 <= #[trigger] buf@[k] < 58,
            buf@[pos as int] != 48,
        decreases runlen - i,
    {
        let b = buf[end - 1 - i];
        proof {
            assert(48 <= buf@[end - 1 - i as int] < 58);
        }
        ds.push(b - 48);
        i = i + 1;
    }
    proof {
        assert(ds@[runlen - 1] == buf@[pos as int] - 48);
        assert(ds@[runlen - 1] != 0);
        lemma_dec_bytes_of_digits(ds@);
        assert(buf@.subrange(pos as int, end as int) =~= dec_bytes(digits_value(ds@))) by {
            assert(forall|k: int|
                0 <= k < runlen ==> dec_bytes(digits_value(ds@))[k] == ds@[runlen - 1 - k] + 48);
            assert(forall|k: int|
                0 <= k < runlen ==> #[trigger] ds@[runlen - 1 - k] == buf@[end - 1 - (runlen - 1
                    - k)] - 48);
        }
    }
    Some((ds, end))
}

/// The machine-integer value of a digit vector, when it fits.
fn digits_to_u64(ds: &Vec<u8>) -> (r: Option<u64>)
    requires
        digits_wf(ds@),
    ensures
        r is Some ==> r->Some_0 == digits_value(ds@),
        r is None ==> digits_value(ds@) > u64::MAX,
{
    let mut v: u64 = 0;
    let mut i: usize = ds.len();
    proof {
        assert(ds@.skip(ds@.len() as int) =~= Seq::<u8>::empty());
    }
    while i > 0
        invariant
            i <= ds@.len(),
            digits_wf(ds@),
            v == digits_value(ds@.skip(i as int)),
        decreases i,
    {
        let d = ds[i - 1];
        proof {
            assert(ds@[i - 1] < 10);
            assert(ds@.skip(i - 1).drop_first() =~= ds@.skip(i as int));
            assert(ds@.skip(i - 1)[0] == ds@[i - 1]);
        }
        let m = match v.checked_mul(10) {
            Some(m) => m,
            None => {
                proof {
                    lemma_skip_value_bounds(ds@, i - 1);
                }
                return None;
            },
        };
        let s = match m.checked_add(d as u64) {
            Some(s) => s,
            None => {
                proof {
                    lemma_skip_value_bounds(ds@, i - 1);
                }
                return None;
            },
        };
        v = s;
        i = i - 1;
    }
    proof {
        assert(ds@.skip(0) =~= ds@);
    }
    Some(v)
}

/// A suffix of the digits never exceeds the whole value.
proof fn lemma_skip_value_bounds(ds: Seq<u8>, j: int)
    requires
        0 <= j <= ds.len(),
    ensures
        digits_value(ds.skip(j)) <= digits_value(ds),
{
    lemma_digits_value_split(ds, j);
    lemma_pow10_positive(j as nat);
    assert(pow10(j as nat) * digits_value(ds.skip(j)) >= digits_value(ds.skip(j))) by (
    nonlinear_arith)
        requires
            pow10(j as nat) >= 1,
    ;
}

/// Whether the decimal rendering of `n` sits at `pos` as a maximal run.
pub open spec fn dec_run_at(buf: Seq<u8>, pos: int, n: nat) -> bool {
    &&& pos + dec_bytes(n).len() <= buf.len()
    &&& buf.subrange(pos, pos + dec_bytes(n).len()) == dec_bytes(n)
    &&& (pos + dec_bytes(n).len() == buf.len() || !is_dec_digit(buf[pos + dec_bytes(n).len()]))
}

/// Read one decimal run as a machine integer.
fn eat_u64(buf: &Vec<u8>, pos: usize) -> (r: Option<(u64, usize)>)
    requires
        pos <= buf@.len(),
    ensures
        r is Some ==> ({
            let (v, p2) = r->Some_0;
            &&& pos < p2 <= buf@.len()
            &&& buf@.subrange(pos as int, p2 as int) == dec_bytes(v as nat)
            &&& (p2 == buf@.len() || !is_dec_digit(buf@[p2 as int]))
            &&& p2 == pos + dec_bytes(v as nat).len()
        }),
        r is None ==> forall|n: u64| !dec_run_at(buf@, pos as int, n as nat),
{
    let r = eat_digits(buf, pos);
    match r {
        Some((ds, p2)) => {
            let converted = digits_to_u64(&ds);
            match converted {
                Some(v) => {
                    proof {
                        crate::digits::lemma_dec_bytes_shape(v as nat);
                    }
                    Some((v, p2))
                },
                None => {
                    proof {
                        assert forall|n: u64| !dec_run_at(buf@, pos as int, n as nat) by {
                            if dec_run_at(buf@, pos as int, n as nat) {
                                lemma_dec_bytes_align(
                                    buf@,
                                    pos as int,
                                    digits_value(ds@),
                                    n as nat,
                                );
                            }
                        }
                    }
                    None
                },
            }
        },
        None => {
            proof {
                assert forall|n: u64| !dec_run_at(buf@, pos as int, n as nat) by {
                    if dec_run_at(buf@, pos as int, n as nat) {
                        crate::digits::lemma_dec_bytes_shape(n as nat);
                        let d = dec_bytes(n as nat);
                        assert(buf@[pos as int] == d[0]);
                        assert(is_dec_digit(buf@[pos as int]));
                        if n == 0 {
                            assert(d.len() == 1);
                            assert(buf@[pos as int] == 48);
                        } else {
                            assert(buf@[pos as int] != 48);
                        }
                    }
                }
            }
            None
        },
    }
}

/// Exact byte-for-byte equality of two buffers.
fn bytes_eq(a: &Vec<u8>, b: &Vec<u8>) -> (r: bool)
    ensures
        r == (a@ =~= b@),
{
    if a.len() != b.len() {
        return false;
    }
    let mut i: usize = 0;
    while i < a.len()
        invariant
            i <= a@.len(),
            a@.len() == b@.len(),
            forall|j: int| 0 <= j < i ==> a@[j] == b@[j],
        decreases a@.len() - i,
    {
        if a[i] != b[i] {
            return false;
        }
        i = i + 1;
    }
    true
}


/// Where piece `k` starts inside a rendered piece list.
pub open spec fn pieces_off(ps: Seq<SavePiece>, k: int) -> int
    decreases k,
{
    if k <= 0 {
        0
    } else {
        pieces_off(ps, k - 1) + piece_bytes(ps[k - 1]).len()
    }
}

proof fn lemma_pieces_off_shift(ps: Seq<SavePiece>, k: int)
    requires
        0 <= k < ps.len(),
    ensures
        pieces_off(ps, k + 1) == piece_bytes(ps[0]).len() + pieces_off(ps.drop_first(), k),
    decreases k,
{
    let rest = ps.drop_first();
    if k == 0 {
        assert(pieces_off(ps, 0) == 0);
        assert(pieces_off(rest, 0) == 0);
        assert(pieces_off(ps, 1) == pieces_off(ps, 0) + piece_bytes(ps[0]).len());
    } else {
        lemma_pieces_off_shift(ps, k - 1);
        assert(rest[k - 1] == ps[k]);
        assert(pieces_off(ps, k + 1) == pieces_off(ps, k) + piece_bytes(ps[k]).len());
        assert(pieces_off(rest, k) == pieces_off(rest, k - 1) + piece_bytes(rest[k - 1]).len());
    }
}

/// A rendered piece list decomposes into its pieces at their offsets.
proof fn lemma_render_decompose(ps: Seq<SavePiece>, w: Seq<u8>)
    requires
        w == render_pieces(ps),
    ensures
        pieces_off(ps, ps.len() as int) == w.len(),
        forall|k: int|
            0 <= k < ps.len() ==> #[trigger] piece_bytes(ps[k]) == w.subrange(
                pieces_off(ps, k),
                pieces_off(ps, k + 1),
            ),
        forall|k: int| 0 <= k <= ps.len() ==> 0 <= #[trigger] pieces_off(ps, k) <= w.len(),
    decreases ps.len(),
{
    if ps.len() == 0 {
    } else {
        let rest = ps.drop_first();
        let p0 = piece_bytes(ps[0]);
        let wr = render_pieces(rest);
        lemma_render_decompose(rest, wr);
        assert(w == p0 + wr);
        assert forall|k: int| 1 <= k <= ps.len() implies pieces_off(ps, k) == p0.len()
            + pieces_off(rest, k - 1) by {
            lemma_pieces_off_shift(ps, k - 1);
        }
        assert(pieces_off(ps, ps.len() as int) == w.len());
        assert forall|k: int|
            0 <= k < ps.len() implies #[trigger] piece_bytes(ps[k]) == w.subrange(
            pieces_off(ps, k),
            pieces_off(ps, k + 1),
        ) by {
            if k == 0 {
                assert(w.subrange(0, p0.len() as int) =~= p0);
            } else {
                assert(rest[k - 1] == ps[k]);
                assert(0 <= pieces_off(rest, k - 1) <= wr.len());
                assert(0 <= pieces_off(rest, k) <= wr.len());
                assert(wr.subrange(pieces_off(rest, k - 1), pieces_off(rest, k)) == piece_bytes(
                    rest[k - 1],
                ));
                assert(w.subrange(pieces_off(ps, k), pieces_off(ps, k + 1)) =~= wr.subrange(
                    pieces_off(rest, k - 1),
                    pieces_off(rest, k),
                ));
            }
        }
        assert forall|k: int| 0 <= k <= ps.len() implies 0 <= #[trigger] pieces_off(ps, k)
            <= w.len() by {
            if k > 0 {
                assert(0 <= pieces_off(rest, k - 1) <= wr.len());
            }
        }
    }
}


/// Congruence: snapshots that agree field for field encode identically.
proof fn lemma_save_bytes_congruence(a: &SaveState, b: &SaveState)
    requires
        a.agrees_with(b),
    ensures
        spec_save_bytes(a) == spec_save_bytes(b),
{
}

/// One chunk step of reading a save back: at its offset, the chunk is
/// found and the position lands on the next piece.
proof fn lemma_walk_lit(
    w: Seq<u8>,
    ps: Seq<SavePiece>,
    k: int,
    lit: Seq<u8>,
    pos: int,
    r: Option<usize>,
)
    requires
        0 <= k < ps.len(),
        piece_bytes(ps[k]) == lit,
        w.subrange(pieces_off(ps, k), pieces_off(ps, k + 1)) == lit,
        0 <= pieces_off(ps, k),
        pieces_off(ps, k + 1) <= w.len(),
        pos == pieces_off(ps, k),
        r is Some ==> r->Some_0 == pos + lit.len() && r->Some_0 <= w.len() && w.subrange(
            pos,
            r->Some_0 as int,
        ) == lit,
        r is None ==> !(pos + lit.len() <= w.len() && w.subrange(pos, pos + lit.len()) == lit),
    ensures
        r is Some,
        r->Some_0 == pieces_off(ps, k + 1),
{
    assert(pieces_off(ps, k + 1) == pieces_off(ps, k) + lit.len());
}

/// One numeric step of reading a save back: the decimal run at the
/// offset is the field's rendering, so the parsed machine integer is the
/// field and the position lands on the next piece.
proof fn lemma_walk_u64(
    w: Seq<u8>,
    ps: Seq<SavePiece>,
    k: int,
    n: nat,
    lit: Seq<u8>,
    pos: int,
    r: Option<(u64, usize)>,
)
    requires
        0 <= k,
        k + 2 <= ps.len(),
        n <= u64::MAX,
        piece_bytes(ps[k]) == dec_bytes(n),
        piece_bytes(ps[k + 1]) == lit,
        lit.len() > 0,
        !is_dec_digit(lit[0]),
        w.subrange(pieces_off(ps, k), pieces_off(ps, k + 1)) == dec_bytes(n),
        w.subrange(pieces_off(ps, k + 1), pieces_off(ps, k + 2)) == lit,
        0 <= pieces_off(ps, k),
        pieces_off(ps, k + 2) <= w.len(),
        pos == pieces_off(ps, k),
        r is Some ==> ({
            let (v, p2) = r->Some_0;
            &&& pos < p2 <= w.len()
            &&& w.subrange(pos, p2 as int) == dec_bytes(v as nat)
            &&& (p2 == w.len() || !is_dec_digit(w[p2 as int]))
            &&& p2 == pos + dec_bytes(v as nat).len()
        }),
        r is None ==> forall|m: u64| !dec_run_at(w, pos, m as nat),
    ensures
        r is Some,
        r->Some_0.0 as nat == n,
        r->Some_0.1 == pieces_off(ps, k + 1),
{
    assert(pieces_off(ps, k + 1) == pieces_off(ps, k) + dec_bytes(n).len());
    assert(pieces_off(ps, k + 2) == pieces_off(ps, k + 1) + lit.len());
    assert(w[pieces_off(ps, k + 1)] == lit[0]) by {
        assert(w.subrange(pieces_off(ps, k + 1), pieces_off(ps, k + 2))[0] == lit[0]);
    }
    assert(dec_run_at(w, pos, n));
    if r is Some {
        let (v, p2) = r->Some_0;
        crate::digits::lemma_dec_bytes_shape(v as nat);
        lemma_dec_bytes_align(w, pos, v as nat, n);
    }
}

/// One big-counter step of reading a save back.
proof fn lemma_walk_big(
    w: Seq<u8>,
    ps: Seq<SavePiece>,
    k: int,
    n: nat,
    lit: Seq<u8>,
    pos: int,
    r: Option<(Vec<u8>, usize)>,
)
    requires
        0 <= k,
        k + 2 <= ps.len(),
        piece_bytes(ps[k]) == dec_bytes(n),
        piece_bytes(ps[k + 1]) == lit,
        lit.len() > 0,
        !is_dec_digit(lit[0]),
        w.subrange(pieces_off(ps, k), pieces_off(ps, k + 1)) == dec_bytes(n),
        w.subrange(pieces_off(ps, k + 1), pieces_off(ps, k + 2)) == lit,
        0 <= pieces_off(ps, k),
        pieces_off(ps, k + 2) <= w.len(),
        pos == pieces_off(ps, k),
        r is Some ==> ({
            let (ds, p2) = r->Some_0;
            &&& pos < p2 <= w.len()
            &&& digits_wf(ds@)
            &&& w.subrange(pos, p2 as int) == dec_bytes(digits_value(ds@))
            &&& (p2 == w.len() || !is_dec_digit(w[p2 as int]))
        }),
        r is None ==> (pos == w.len() || !is_dec_digit(w[pos]) || (w[pos] == 48 && pos + 1
            < w.len() && is_dec_digit(w[pos + 1]))),
    ensures
        r is Some,
        digits_value(r->Some_0.0@) == n,
        r->Some_0.1 == pieces_off(ps, k + 1),
{
    assert(pieces_off(ps, k + 1) == pieces_off(ps, k) + dec_bytes(n).len());
    assert(pieces_off(ps, k + 2) == pieces_off(ps, k + 1) + lit.len());
    crate::digits::lemma_dec_bytes_shape(n);
    assert(w[pieces_off(ps, k + 1)] == lit[0]) by {
        assert(w.subrange(pieces_off(ps, k + 1), pieces_off(ps, k + 2))[0] == lit[0]);
    }
    assert(w[pos] == dec_bytes(n)[0]) by {
        assert(w.subrange(pieces_off(ps, k), pieces_off(ps, k + 1))[0] == dec_bytes(n)[0]);
    }
    if r is None {
        assert(is_dec_digit(w[pos]));
        if w[pos] == 48 {
            assert(n == 0);
            assert(dec_bytes(n).len() == 1);
            assert(!is_dec_digit(w[pos + 1]));
        }
        assert(false);
    }
    let (ds, p2) = r->Some_0;
    let la = dec_bytes(digits_value(ds@)).len() as int;
    assert(w.subrange(pos, pos + la) == dec_bytes(digits_value(ds@))) by {
        assert(pos + la == p2);
    }
    lemma_dec_bytes_align(w, pos, digits_value(ds@), n);
}

/// Reading back a sound snapshot: the tunable parameters parse to
/// exactly the snapshot's values.
#[verifier::rlimit(100)]
proof fn lemma_decode_walk_params(
    bytes: Seq<u8>,
    r0: Option<usize>,
    p1: usize,
    r1: Option<(u64, usize)>,
    v1: u64,
    p2: usize,
    r2: Option<usize>,
    p3: usize,
    g3: Option<(Vec<u8>, usize)>,
    p4: usize,
    r4: Option<usize>,
    p5: usize,
    r5: Option<(u64, usize)>,
    v5: u64,
    p6: usize,
)
    requires
        ((r0 is Some ==> r0->Some_0 == 0 + "{\"parameters\":{\"knead_tick_size\":".spec_bytes().len() && r0->Some_0 <= bytes.len() && bytes.subrange(0 as int, r0->Some_0 as int) == "{\"parameters\":{\"knead_tick_size\":".spec_bytes()) && (r0 is None ==> !(0 + "{\"parameters\":{\"knead_tick_size\":".spec_bytes().len() <= bytes.len() && bytes.subrange(0 as int, (0 + "{\"parameters\":{\"knead_tick_size\":".spec_bytes().len()) as int) == "{\"parameters\":{\"knead_tick_size\":".spec_bytes()))),
        r0 is Some ==> p1 == r0->Some_0,
        !(r0 is Some) ==> r1 is None,
        r0 is Some ==> ((r1 is Some ==> ({ let (v, p2) = r1->Some_0; p1 < p2 <= bytes.len() && bytes.subrange(p1 as int, p2 as int) == dec_bytes(v as nat) && (p2 == bytes.len() || !is_dec_digit(bytes[p2 as int])) && p2 == p1 + dec_bytes(v as nat).len() })) && (r1 is None ==> forall|m: u64| !dec_run_at(bytes, p1 as int, m as nat))),
        r1 is Some ==> v1 == r1->Some_0.0 && p2 == r1->Some_0.1,
        !(r1 is Some) ==> r2 is None,
        r1 is Some ==> ((r2 is Some ==> r2->Some_0 == p2 + ",\"pasta_price\":\"".spec_bytes().len() && r2->Some_0 <= bytes.len() && bytes.subrange(p2 as int, r2->Some_0 as int) == ",\"pasta_price\":\"".spec_bytes()) && (r2 is None ==> !(p2 + ",\"pasta_price\":\"".spec_bytes().len() <= bytes.len() && bytes.subrange(p2 as int, (p2 + ",\"pasta_price\":\"".spec_bytes().len()) as int) == ",\"pasta_price\":\"".spec_bytes()))),
        r2 is Some ==> p3 == r2->Some_0,
        !(r2 is Some) ==> g3 is None,
        r2 is Some ==> ((g3 is Some ==> ({ let (ds, p2) = g3->Some_0; p3 < p2 <= bytes.len() && digits_wf(ds@) && bytes.subrange(p3 as int, p2 as int) == dec_bytes(digits_value(ds@)) && (p2 == bytes.len() || !is_dec_digit(bytes[p2 as int])) })) && (g3 is None ==> (p3 == bytes.len() || !is_dec_digit(bytes[p3 as int]) || (bytes[p3 as int] == 48 && p3 + 1 < bytes.len() && is_dec_digit(bytes[p3 + 1]))))),
        g3 is Some ==> p4 == g3->Some_0.1,
        !(g3 is Some) ==> r4 is None,
        g3 is Some ==> ((r4 is Some ==> r4->Some_0 == p4 + "\",\"auto_crank_level\":".spec_bytes().len() && r4->Some_0 <= bytes.len() && bytes.subrange(p4 as int, r4->Some_0 as int) == "\",\"auto_crank_level\":".spec_bytes()) && (r4 is None ==> !(p4 + "\",\"auto_crank_level\":".spec_bytes().len() <= bytes.len() && bytes.subrange(p4 as int, (p4 + "\",\"auto_crank_level\":".spec_bytes().len()) as int) == "\",\"auto_crank_level\":".spec_bytes()))),
        r4 is Some ==> p5 == r4->Some_0,
        !(r4 is Some) ==> r5 is None,
        r4 is Some ==> ((r5 is Some ==> ({ let (v, p2) = r5->Some_0; p5 < p2 <= bytes.len() && bytes.subrange(p5 as int, p2 as int) == dec_bytes(v as nat) && (p2 == bytes.len() || !is_dec_digit(bytes[p2 as int])) && p2 == p5 + dec_bytes(v as nat).len() })) && (r5 is None ==> forall|m: u64| !dec_run_at(bytes, p5 as int, m as nat))),
        r5 is Some ==> v5 == r5->Some_0.0 && p6 == r5->Some_0.1,
    ensures
        forall|s: SaveState|
            s.wf() && bytes == #[trigger] spec_save_bytes(&s) ==> ({
                &&& r5 is Some
                &&& p6 == pieces_off(save_pieces(&s), 6)
                &&& r1 is Some
                &&& v1 as nat == s.parameters.knead_tick_size as nat
                &&& g3 is Some
                &&& digits_value(g3->Some_0.0@) == s.parameters.pasta_price@
                &&& r5 is Some
                &&& v5 as nat == s.parameters.auto_crank_level as nat
            }),
{
    assert forall|s: SaveState| s.wf() && bytes == #[trigger] spec_save_bytes(&s) implies ({
        &&& r5 is Some
        &&& p6 == pieces_off(save_pieces(&s), 6)
        &&& r1 is Some
        &&& v1 as nat == s.parameters.knead_tick_size as nat
        &&& g3 is Some
        &&& digits_value(g3->Some_0.0@) == s.parameters.pasta_price@
        &&& r5 is Some
        &&& v5 as nat == s.parameters.auto_crank_level as nat
    }) by {
        let ps = save_pieces(&s);
        lemma_save_bytes_render(&s);
        lemma_render_decompose(ps, bytes);
        lemma_save_literals();
        assert(pieces_off(ps, 0) == 0);
        assert(piece_bytes(ps[0]) == "{\"parameters\":{\"knead_tick_size\":".spec_bytes());
        assert(bytes.subrange(pieces_off(ps, 0), pieces_off(ps, 1)) == piece_bytes(ps[0]));
        lemma_walk_lit(bytes, ps, 0, "{\"parameters\":{\"knead_tick_size\":".spec_bytes(), 0 as int, r0);
        assert(p1 == pieces_off(ps, 1));
        assert(piece_bytes(ps[1]) == dec_bytes(s.parameters.knead_tick_size as nat));
        assert(piece_bytes(ps[2]) == ",\"pasta_price\":\"".spec_bytes());
        assert(bytes.subrange(pieces_off(ps, 1), pieces_off(ps, 2)) == piece_bytes(ps[1]));
        assert(bytes.subrange(pieces_off(ps, 2), pieces_off(ps, 3)) == piece_bytes(ps[2]));
        lemma_walk_u64(bytes, ps, 1, s.parameters.knead_tick_size as nat, ",\"pasta_price\":\"".spec_bytes(), p1 as int, r1);
        assert(v1 as nat == s.parameters.knead_tick_size as nat);
        assert(p2 == pieces_off(ps, 2));
        assert(piece_bytes(ps[2]) == ",\"pasta_price\":\"".spec_bytes());
        assert(bytes.subrange(pieces_off(ps, 2), pieces_off(ps, 3)) == piece_bytes(ps[2]));
        lemma_walk_lit(bytes, ps, 2, ",\"pasta_price\":\"".spec_bytes(), p2 as int, r2);
        assert(p3 == pieces_off(ps, 3));
        assert(piece_bytes(ps[3]) == dec_bytes(s.parameters.pasta_price@));
        assert(piece_bytes(ps[4]) == "\",\"auto_crank_level\":".spec_bytes());
        assert(bytes.subrange(pieces_off(ps, 3), pieces_off(ps, 4)) == piece_bytes(ps[3]));
        assert(bytes.subrange(pieces_off(ps, 4), pieces_off(ps, 5)) == piece_bytes(ps[4]));
        lemma_walk_big(bytes, ps, 3, s.parameters.pasta_price@, "\",\"auto_crank_level\":".spec_bytes(), p3 as int, g3);
        assert(digits_value(g3->Some_0.0@) == s.parameters.pasta_price@);
        assert(p4 == pieces_off(ps, 4));
        assert(piece_bytes(ps[4]) == "\",\"auto_crank_level\":".spec_bytes());
        assert(bytes.subrange(pieces_off(ps, 4), pieces_off(ps, 5)) == piece_bytes(ps[4]));
        lemma_walk_lit(bytes, ps, 4, "\",\"auto_crank_level\":".spec_bytes(), p4 as int, r4);
        assert(p5 == pieces_off(ps, 5));
        assert(piece_bytes(ps[5]) == dec_bytes(s.parameters.auto_crank_level as nat));
        assert(piece_bytes(ps[6]) == ",\"auto_knead_level\":".spec_bytes());
        assert(bytes.subrange(pieces_off(ps, 5), pieces_off(ps, 6)) == piece_bytes(ps[5]));
        assert(bytes.subrange(pieces_off(ps, 6), pieces_off(ps, 7)) == piece_bytes(ps[6]));
        lemma_walk_u64(bytes, ps, 5, s.parameters.auto_crank_level as nat, ",\"auto_knead_level\":".spec_bytes(), p5 as int, r5);
        assert(v5 as nat == s.parameters.auto_crank_level as nat);
        assert(p6 == pieces_off(ps, 6));
    }
}

/// Reading back a sound snapshot: the balances parse exactly.
#[verifier::rlimit(100)]
proof fn lemma_decode_walk_balances(
    bytes: Seq<u8>,
    entered: bool,
    p6: usize,
    r6: Option<usize>,
    p7: usize,
    r7: Option<(u64, usize)>,
    v7: u64,
    p8: usize,
    r8: Option<usize>,
    p9: usize,
    g9: Option<(Vec<u8>, usize)>,
    p10: usize,
    r10: Option<usize>,
    p11: usize,
    g11: Option<(Vec<u8>, usize)>,
    p12: usize,
)
    requires
        forall|s: SaveState| s.wf() && bytes == #[trigger] spec_save_bytes(&s) ==> (entered && p6 == pieces_off(save_pieces(&s), 6)),
        !entered ==> r6 is None,
        entered ==> ((r6 is Some ==> r6->Some_0 == p6 + ",\"auto_knead_level\":".spec_bytes().len() && r6->Some_0 <= bytes.len() && bytes.subrange(p6 as int, r6->Some_0 as int) == ",\"auto_knead_level\":".spec_bytes()) && (r6 is None ==> !(p6 + ",\"auto_knead_level\":".spec_bytes().len() <= bytes.len() && bytes.subrange(p6 as int, (p6 + ",\"auto_knead_level\":".spec_bytes().len()) as int) == ",\"auto_knead_level\":".spec_bytes()))),
        r6 is Some ==> p7 == r6->Some_0,
        !(r6 is Some) ==> r7 is None,
        r6 is Some ==> ((r7 is Some ==> ({ let (v, p2) = r7->Some_0; p7 < p2 <= bytes.len() && bytes.subrange(p7 as int, p2 as int) == dec_bytes(v as nat) && (p2 == bytes.len() || !is_dec_digit(bytes[p2 as int])) && p2 == p7 + dec_bytes(v as nat).len() })) && (r7 is None ==> forall|m: u64| !dec_run_at(bytes, p7 as int, m as nat))),
        r7 is Some ==> v7 == r7->Some_0.0 && p8 == r7->Some_0.1,
        !(r7 is Some) ==> r8 is None,
        r7 is Some ==> ((r8 is Some ==> r8->Some_0 == p8 + "},\"state\":{\"money\":\"".spec_bytes().len() && r8->Some_0 <= bytes.len() && bytes.subrange(p8 as int, r8->Some_0 as int) == "},\"state\":{\"money\":\"".spec_bytes()) && (r8 is None ==> !(p8 + "},\"state\":{\"money\":\"".spec_bytes().len() <= bytes.len() && bytes.subrange(p8 as int, (p8 + "},\"state\":{\"money\":\"".spec_bytes().len()) as int) == "},\"state\":{\"money\":\"".spec_bytes()))),
        r8 is Some ==> p9 == r8->Some_0,
        !(r8 is Some) ==> g9 is None,
        r8 is Some ==> ((g9 is Some ==> ({ let (ds, p2) = g9->Some_0; p9 < p2 <= bytes.len() && digits_wf(ds@) && bytes.subrange(p9 as int, p2 as int) == dec_bytes(digits_value(ds@)) && (p2 == bytes.len() || !is_dec_digit(bytes[p2 as int])) })) && (g9 is None ==> (p9 == bytes.len() || !is_dec_digit(bytes[p9 as int]) || (bytes[p9 as int] == 48 && p9 + 1 < bytes.len() && is_dec_digit(bytes[p9 + 1]))))),
        g9 is Some ==> p10 == g9->Some_0.1,
        !(g9 is Some) ==> r10 is None,
        g9 is Some ==> ((r10 is Some ==> r10->Some_0 == p10 + "\",\"diamonds\":\"".spec_bytes().len() && r10->Some_0 <= bytes.len() && bytes.subrange(p10 as int, r10->Some_0 as int) == "\",\"diamonds\":\"".spec_bytes()) && (r10 is None ==> !(p10 + "\",\"diamonds\":\"".spec_bytes().len() <= bytes.len() && bytes.subrange(p10 as int, (p10 + "\",\"diamonds\":\"".spec_bytes().len()) as int) == "\",\"diamonds\":\"".spec_bytes()))),
        r10 is Some ==> p11 == r10->Some_0,
        !(r10 is Some) ==> g11 is None,
        r10 is Some ==> ((g11 is Some ==> ({ let (ds, p2) = g11->Some_0; p11 < p2 <= bytes.len() && digits_wf(ds@) && bytes.subrange(p11 as int, p2 as int) == dec_bytes(digits_value(ds@)) && (p2 == bytes.len() || !is_dec_digit(bytes[p2 as int])) })) && (g11 is None ==> (p11 == bytes.len() || !is_dec_digit(bytes[p11 as int]) || (bytes[p11 as int] == 48 && p11 + 1 < bytes.len() && is_dec_digit(bytes[p11 + 1]))))),
        g11 is Some ==> p12 == g11->Some_0.1,
    ensures
        forall|s: SaveState|
            s.wf() && bytes == #[trigger] spec_save_bytes(&s) ==> ({
                &&& g11 is Some
                &&& p12 == pieces_off(save_pieces(&s), 12)
                &&& r7 is Some
                &&& v7 as nat == s.parameters.auto_knead_level as nat
                &&& g9 is Some
                &&& digits_value(g9->Some_0.0@) == s.state.money@
                &&& g11 is Some
                &&& digits_value(g11->Some_0.0@) == s.state.diamonds@
            }),
{
    assert forall|s: SaveState| s.wf() && bytes == #[trigger] spec_save_bytes(&s) implies ({
        &&& g11 is Some
        &&& p12 == pieces_off(save_pieces(&s), 12)
        &&& r7 is Some
        &&& v7 as nat == s.parameters.auto_knead_level as nat
        &&& g9 is Some
        &&& digits_value(g9->Some_0.0@) == s.state.money@
        &&& g11 is Some
        &&& digits_value(g11->Some_0.0@) == s.state.diamonds@
    }) by {
        let ps = save_pieces(&s);
        lemma_save_bytes_render(&s);
        lemma_render_decompose(ps, bytes);
        lemma_save_literals();
        assert(piece_bytes(ps[6]) == ",\"auto_knead_level\":".spec_bytes());
        assert(bytes.subrange(pieces_off(ps, 6), pieces_off(ps, 7)) == piece_bytes(ps[6]));
        lemma_walk_lit(bytes, ps, 6, ",\"auto_knead_level\":".spec_bytes(), p6 as int, r6);
        assert(p7 == pieces_off(ps, 7));
        assert(piece_bytes(ps[7]) == dec_bytes(s.parameters.auto_knead_level as nat));
        assert(piece_bytes(ps[8]) == "},\"state\":{\"money\":\"".spec_bytes());
        assert(bytes.subrange(pieces_off(ps, 7), pieces_off(ps, 8)) == piece_bytes(ps[7]));
        assert(bytes.subrange(pieces_off(ps, 8), pieces_off(ps, 9)) == piece_bytes(ps[8]));
        lemma_walk_u64(bytes, ps, 7, s.parameters.auto_knead_level as nat, "},\"state\":{\"money\":\"".spec_bytes(), p7 as int, r7);
        assert(v7 as nat == s.parameters.auto_knead_level as nat);
        assert(p8 == pieces_off(ps, 8));
        assert(piece_bytes(ps[8]) == "},\"state\":{\"money\":\"".spec_bytes());
        assert(bytes.subrange(pieces_off(ps, 8), pieces_off(ps, 9)) == piece_bytes(ps[8]));
        lemma_walk_lit(bytes, ps, 8, "},\"state\":{\"money\":\"".spec_bytes(), p8 as int, r8);
        assert(p9 == pieces_off(ps, 9));
        assert(piece_bytes(ps[9]) == dec_bytes(s.state.money@));
        assert(piece_bytes(ps[10]) == "\",\"diamonds\":\"".spec_bytes());
        assert(bytes.subrange(pieces_off(ps, 9), pieces_off(ps, 10)) == piece_bytes(ps[9]));
        assert(bytes.subrange(pieces_off(ps, 10), pieces_off(ps, 11)) == piece_bytes(ps[10]));
        lemma_walk_big(bytes, ps, 9, s.state.money@, "\",\"diamonds\":\"".spec_bytes(), p9 as int, g9);
        assert(digits_value(g9->Some_0.0@) == s.state.money@);
        assert(p10 == pieces_off(ps, 10));
        assert(piece_bytes(ps[10]) == "\",\"diamonds\":\"".spec_bytes());
        assert(bytes.subrange(pieces_off(ps, 10), pieces_off(ps, 11)) == piece_bytes(ps[10]));
        lemma_walk_lit(bytes, ps, 10, "\",\"diamonds\":\"".spec_bytes(), p10 as int, r10);
        assert(p11 == pieces_off(ps, 11));
        assert(piece_bytes(ps[11]) == dec_bytes(s.state.diamonds@));
        assert(piece_bytes(ps[12]) == "\",\"dough_balls\":\"".spec_bytes());
        assert(bytes.subrange(pieces_off(ps, 11), pieces_off(ps, 12)) == piece_bytes(ps[11]));
        assert(bytes.subrange(pieces_off(ps, 12), pieces_off(ps, 13)) == piece_bytes(ps[12]));
        lemma_walk_big(bytes, ps, 11, s.state.diamonds@, "\",\"dough_balls\":\"".spec_bytes(), p11 as int, g11);
        assert(digits_value(g11->Some_0.0@) == s.state.diamonds@);
        assert(p12 == pieces_off(ps, 12));
    }
}

/// Reading back a sound snapshot: the dough reserve and the first
/// purchase counts parse exactly.
#[verifier::rlimit(100)]
proof fn lemma_decode_walk_reserve(
    bytes: Seq<u8>,
    entered: bool,
    p12: usize,
    r12: Option<usize>,
    p13: usize,
    g13: Option<(Vec<u8>, usize)>,
    p14: usize,
    r14: Option<usize>,
    p15: usize,
    r15: Option<(u64, usize)>,
    v15: u64,
    p16: usize,
    r16: Option<usize>,
    p17: usize,
    r17: Option<(u64, usize)>,
    v17: u64,
    p18: usize,
)
    requires
        forall|s: SaveState| s.wf() && bytes == #[trigger] spec_save_bytes(&s) ==> (entered && p12 == pieces_off(save_pieces(&s), 12)),
        !entered ==> r12 is None,
        entered ==> ((r12 is Some ==> r12->Some_0 == p12 + "\",\"dough_balls\":\"".spec_bytes().len() && r12->Some_0 <= bytes.len() && bytes.subrange(p12 as int, r12->Some_0 as int) == "\",\"dough_balls\":\"".spec_bytes()) && (r12 is None ==> !(p12 + "\",\"dough_balls\":\"".spec_bytes().len() <= bytes.len() && bytes.subrange(p12 as int, (p12 + "\",\"dough_balls\":\"".spec_bytes().len()) as int) == "\",\"dough_balls\":\"".spec_bytes()))),
        r12 is Some ==> p13 == r12->Some_0,
        !(r12 is Some) ==> g13 is None,
        r12 is Some ==> ((g13 is Some ==> ({ let (ds, p2) = g13->Some_0; p13 < p2 <= bytes.len() && digits_wf(ds@) && bytes.subrange(p13 as int, p2 as int) == dec_bytes(digits_value(ds@)) && (p2 == bytes.len() || !is_dec_digit(bytes[p2 as int])) })) && (g13 is None ==> (p13 == bytes.len() || !is_dec_digit(bytes[p13 as int]) || (bytes[p13 as int] == 48 && p13 + 1 < bytes.len() && is_dec_digit(bytes[p13 + 1]))))),
        g13 is Some ==> p14 == g13->Some_0.1,
        !(g13 is Some) ==> r14 is None,
        g13 is Some ==> ((r14 is Some ==> r14->Some_0 == p14 + "\"},\"menu_counts\":[".spec_bytes().len() && r14->Some_0 <= bytes.len() && bytes.subrange(p14 as int, r14->Some_0 as int) == "\"},\"menu_counts\":[".spec_bytes()) && (r14 is None ==> !(p14 + "\"},\"menu_counts\":[".spec_bytes().len() <= bytes.len() && bytes.subrange(p14 as int, (p14 + "\"},\"menu_counts\":[".spec_bytes().len()) as int) == "\"},\"menu_counts\":[".spec_bytes()))),
        r14 is Some ==> p15 == r14->Some_0,
        !(r14 is Some) ==> r15 is None,
        r14 is Some ==> ((r15 is Some ==> ({ let (v, p2) = r15->Some_0; p15 < p2 <= bytes.len() && bytes.subrange(p15 as int, p2 as int) == dec_bytes(v as nat) && (p2 == bytes.len() || !is_dec_digit(bytes[p2 as int])) && p2 == p15 + dec_bytes(v as nat).len() })) && (r15 is None ==> forall|m: u64| !dec_run_at(bytes, p15 as int, m as nat))),
        r15 is Some ==> v15 == r15->Some_0.0 && p16 == r15->Some_0.1,
        !(r15 is Some) ==> r16 is None,
        r15 is Some ==> ((r16 is Some ==> r16->Some_0 == p16 + ",".spec_bytes().len() && r16->Some_0 <= bytes.len() && bytes.subrange(p16 as int, r16->Some_0 as int) == ",".spec_bytes()) && (r16 is None ==> !(p16 + ",".spec_bytes().len() <= bytes.len() && bytes.subrange(p16 as int, (p16 + ",".spec_bytes().len()) as int) == ",".spec_bytes()))),
        r16 is Some ==> p17 == r16->Some_0,
        !(r16 is Some) ==> r17 is None,
        r16 is Some ==> ((r17 is Some ==> ({ let (v, p2) = r17->Some_0; p17 < p2 <= bytes.len() && bytes.subrange(p17 as int, p2 as int) == dec_bytes(v as nat) && (p2 == bytes.len() || !is_dec_digit(bytes[p2 as int])) && p2 == p17 + dec_bytes(v as nat).len() })) && (r17 is None ==> forall|m: u64| !dec_run_at(bytes, p17 as int, m as nat))),
        r17 is Some ==> v17 == r17->Some_0.0 && p18 == r17->Some_0.1,
    ensures
        forall|s: SaveState|
            s.wf() && bytes == #[trigger] spec_save_bytes(&s) ==> ({
                &&& r17 is Some
                &&& p18 == pieces_off(save_pieces(&s), 18)
                &&& g13 is Some
                &&& digits_value(g13->Some_0.0@) == s.state.dough_balls@
                &&& r15 is Some
                &&& v15 as nat == s.menu_counts@[0] as nat
                &&& r17 is Some
                &&& v17 as nat == s.menu_counts@[1] as nat
            }),
{
    assert forall|s: SaveState| s.wf() && bytes == #[trigger] spec_save_bytes(&s) implies ({
        &&& r17 is Some
        &&& p18 == pieces_off(save_pieces(&s), 18)
        &&& g13 is Some
        &&& digits_value(g13->Some_0.0@) == s.state.dough_balls@
        &&& r15 is Some
        &&& v15 as nat == s.menu_counts@[0] as nat
        &&& r17 is Some
        &&& v17 as nat == s.menu_counts@[1] as nat
    }) by {
        let ps = save_pieces(&s);
        lemma_save_bytes_render(&s);
        lemma_render_decompose(ps, bytes);
        lemma_save_literals();
        assert(piece_bytes(ps[12]) == "\",\"dough_balls\":\"".spec_bytes());
        assert(bytes.subrange(pieces_off(ps, 12), pieces_off(ps, 13)) == piece_bytes(ps[12]));
        lemma_walk_lit(bytes, ps, 12, "\",\"dough_balls\":\"".spec_bytes(), p12 as int, r12);
        assert(p13 == pieces_off(ps, 13));
        assert(piece_bytes(ps[13]) == dec_bytes(s.state.dough_balls@));
        assert(piece_bytes(ps[14]) == "\"},\"menu_counts\":[".spec_bytes());
        assert(bytes.subrange(pieces_off(ps, 13), pieces_off(ps, 14)) == piece_bytes(ps[13]));
        assert(bytes.subrange(pieces_off(ps, 14), pieces_off(ps, 15)) == piece_bytes(ps[14]));
        lemma_walk_big(bytes, ps, 13, s.state.dough_balls@, "\"},\"menu_counts\":[".spec_bytes(), p13 as int, g13);
        assert(digits_value(g13->Some_0.0@) == s.state.dough_balls@);
        assert(p14 == pieces_off(ps, 14));
        assert(piece_bytes(ps[14]) == "\"},\"menu_counts\":[".spec_bytes());
        assert(bytes.subrange(pieces_off(ps, 14), pieces_off(ps, 15)) == piece_bytes(ps[14]));
        lemma_walk_lit(bytes, ps, 14, "\"},\"menu_counts\":[".spec_bytes(), p14 as int, r14);
        assert(p15 == pieces_off(ps, 15));
        assert(piece_bytes(ps[15]) == dec_bytes(s.menu_counts@[0] as nat));
        assert(piece_bytes(ps[16]) == ",".spec_bytes());
        assert(bytes.subrange(pieces_off(ps, 15), pieces_off(ps, 16)) == piece_bytes(ps[15]));
        assert(bytes.subrange(pieces_off(ps, 16), pieces_off(ps, 17)) == piece_bytes(ps[16]));
        lemma_walk_u64(bytes, ps, 15, s.menu_counts@[0] as nat, ",".spec_bytes(), p15 as int, r15);
        assert(v15 as nat == s.menu_counts@[0] as nat);
        assert(p16 == pieces_off(ps, 16));
        assert(piece_bytes(ps[16]) == ",".spec_bytes());
        assert(bytes.subrange(pieces_off(ps, 16), pieces_off(ps, 17)) == piece_bytes(ps[16]));
        lemma_walk_lit(bytes, ps, 16, ",".spec_bytes(), p16 as int, r16);
        assert(p17 == pieces_off(ps, 17));
        assert(piece_bytes(ps[17]) == dec_bytes(s.menu_counts@[1] as nat));
        assert(piece_bytes(ps[18]) == ",".spec_bytes());
        assert(bytes.subrange(pieces_off(ps, 17), pieces_off(ps, 18)) == piece_bytes(ps[17]));
        assert(bytes.subrange(pieces_off(ps, 18), pieces_off(ps, 19)) == piece_bytes(ps[18]));
        lemma_walk_u64(bytes, ps, 17, s.menu_counts@[1] as nat, ",".spec_bytes(), p17 as int, r17);
        assert(v17 as nat == s.menu_counts@[1] as nat);
        assert(p18 == pieces_off(ps, 18));
    }
}

/// Reading back a sound snapshot: the remaining counts and the
/// closing frame parse exactly, consuming the whole buffer.
#[verifier::rlimit(100)]
proof fn lemma_decode_walk_counts(
    bytes: Seq<u8>,
    entered: bool,
    p18: usize,
    r18: Option<usize>,
    p19: usize,
    r19: Option<(u64, usize)>,
    v19: u64,
    p20: usize,
    r20: Option<usize>,
    p21: usize,
    r21: Option<(u64, usize)>,
    v21: u64,
    p22: usize,
    r22: Option<usize>,
    p23: usize,
)
    requires
        forall|s: SaveState| s.wf() && bytes == #[trigger] spec_save_bytes(&s) ==> (entered && p18 == pieces_off(save_pieces(&s), 18)),
        !entered ==> r18 is None,
        entered ==> ((r18 is Some ==> r18->Some_0 == p18 + ",".spec_bytes().len() && r18->Some_0 <= bytes.len() && bytes.subrange(p18 as int, r18->Some_0 as int) == ",".spec_bytes()) && (r18 is None ==> !(p18 + ",".spec_bytes().len() <= bytes.len() && bytes.subrange(p18 as int, (p18 + ",".spec_bytes().len()) as int) == ",".spec_bytes()))),
        r18 is Some ==> p19 == r18->Some_0,
        !(r18 is Some) ==> r19 is None,
        r18 is Some ==> ((r19 is Some ==> ({ let (v, p2) = r19->Some_0; p19 < p2 <= bytes.len() && bytes.subrange(p19 as int, p2 as int) == dec_bytes(v as nat) && (p2 == bytes.len() || !is_dec_digit(bytes[p2 as int])) && p2 == p19 + dec_bytes(v as nat).len() })) && (r19 is None ==> forall|m: u64| !dec_run_at(bytes, p19 as int, m as nat))),
        r19 is Some ==> v19 == r19->Some_0.0 && p20 == r19->Some_0.1,
        !(r19 is Some) ==> r20 is None,
        r19 is Some ==> ((r20 is Some ==> r20->Some_0 == p20 + ",".spec_bytes().len() && r20->Some_0 <= bytes.len() && bytes.subrange(p20 as int, r20->Some_0 as int) == ",".spec_bytes()) && (r20 is None ==> !(p20 + ",".spec_bytes().len() <= bytes.len() && bytes.subrange(p20 as int, (p20 + ",".spec_bytes().len()) as int) == ",".spec_bytes()))),
        r20 is Some ==> p21 == r20->Some_0,
        !(r20 is Some) ==> r21 is None,
        r20 is Some ==> ((r21 is Some ==> ({ let (v, p2) = r21->Some_0; p21 < p2 <= bytes.len() && bytes.subrange(p21 as int, p2 as int) == dec_bytes(v as nat) && (p2 == bytes.len() || !is_dec_digit(bytes[p2 as int])) && p2 == p21 + dec_bytes(v as nat).len() })) && (r21 is None ==> forall|m: u64| !dec_run_at(bytes, p21 as int, m as nat))),
        r21 is Some ==> v21 == r21->Some_0.0 && p22 == r21->Some_0.1,
        !(r21 is Some) ==> r22 is None,
        r21 is Some ==> ((r22 is Some ==> r22->Some_0 == p22 + "]}".spec_bytes().len() && r22->Some_0 <= bytes.len() && bytes.subrange(p22 as int, r22->Some_0 as int) == "]}".spec_bytes()) && (r22 is None ==> !(p22 + "]}".spec_bytes().len() <= bytes.len() && bytes.subrange(p22 as int, (p22 + "]}".spec_bytes().len()) as int) == "]}".spec_bytes()))),
        r22 is Some ==> p23 == r22->Some_0,
    ensures
        forall|s: SaveState|
            s.wf() && bytes == #[trigger] spec_save_bytes(&s) ==> ({
                &&& r22 is Some
                &&& p23 == bytes.len()
                &&& r19 is Some
                &&& v19 as nat == s.menu_counts@[2] as nat
                &&& r21 is Some
                &&& v21 as nat == s.menu_counts@[3] as nat
            }),
{
    assert forall|s: SaveState| s.wf() && bytes == #[trigger] spec_save_bytes(&s) implies ({
        &&& r22 is Some
        &&& p23 == bytes.len()
        &&& r19 is Some
        &&& v19 as nat == s.menu_counts@[2] as nat
        &&& r21 is Some
        &&& v21 as nat == s.menu_counts@[3] as nat
    }) by {
        let ps = save_pieces(&s);
        lemma_save_bytes_render(&s);
        lemma_render_decompose(ps, bytes);
        lemma_save_literals();
        assert(piece_bytes(ps[18]) == ",".spec_bytes());
        assert(bytes.subrange(pieces_off(ps, 18), pieces_off(ps, 19)) == piece_bytes(ps[18]));
        lemma_walk_lit(bytes, ps, 18, ",".spec_bytes(), p18 as int, r18);
        assert(p19 == pieces_off(ps, 19));
        assert(piece_bytes(ps[19]) == dec_bytes(s.menu_counts@[2] as nat));
        assert(piece_bytes(ps[20]) == ",".spec_bytes());
        assert(bytes.subrange(pieces_off(ps, 19), pieces_off(ps, 20)) == piece_bytes(ps[19]));
        assert(bytes.subrange(pieces_off(ps, 20), pieces_off(ps, 21)) == piece_bytes(ps[20]));
        lemma_walk_u64(bytes, ps, 19, s.menu_counts@[2] as nat, ",".spec_bytes(), p19 as int, r19);
        assert(v19 as nat == s.menu_counts@[2] as nat);
        assert(p20 == pieces_off(ps, 20));
        assert(piece_bytes(ps[20]) == ",".spec_bytes());
        assert(bytes.subrange(pieces_off(ps, 20), pieces_off(ps, 21)) == piece_bytes(ps[20]));
        lemma_walk_lit(bytes, ps, 20, ",".spec_bytes(), p20 as int, r20);
        assert(p21 == pieces_off(ps, 21));
        assert(piece_bytes(ps[21]) == dec_bytes(s.menu_counts@[3] as nat));
        assert(piece_bytes(ps[22]) == "]}".spec_bytes());
        assert(bytes.subrange(pieces_off(ps, 21), pieces_off(ps, 22)) == piece_bytes(ps[21]));
        assert(bytes.subrange(pieces_off(ps, 22), pieces_off(ps, 23)) == piece_bytes(ps[22]));
        lemma_walk_u64(bytes, ps, 21, s.menu_counts@[3] as nat, "]}".spec_bytes(), p21 as int, r21);
        assert(v21 as nat == s.menu_counts@[3] as nat);
        assert(p22 == pieces_off(ps, 22));
        assert(piece_bytes(ps[22]) == "]}".spec_bytes());
        assert(bytes.subrange(pieces_off(ps, 22), pieces_off(ps, 23)) == piece_bytes(ps[22]));
        lemma_walk_lit(bytes, ps, 22, "]}".spec_bytes(), p22 as int, r22);
        assert(p23 == pieces_off(ps, 23));
        assert(pieces_off(ps, 23) == bytes.len());
    }
}

/// Deserialize a snapshot. A byte string loads exactly when it is the
/// encoding of a sound snapshot, and what loads is field for field the
/// snapshot that was saved (the read value is re-encoded and compared);
/// corrupt or foreign bytes are rejected and the caller starts fresh.
#[verifier::rlimit(100)]
pub fn decode_save(bytes: &Vec<u8>) -> (r: Option<SaveState>)
    ensures
        r is Some ==> r->Some_0.wf() && bytes@ == spec_save_bytes(&r->Some_0),
        forall|s: SaveState|
            s.wf() && bytes@ == #[trigger] spec_save_bytes(&s) ==> r is Some
                && r->Some_0.agrees_with(&s),
{
    let p0: usize = 0;
    let r0 = eat_lit(bytes, p0, "{\"parameters\":{\"knead_tick_size\":");
    let p1: usize = match r0 {
        Some(p) => p,
        None => 0,
    };
    let r1 = if r0.is_some() {
        eat_u64(bytes, p1)
    } else {
        None
    };
    let (v1, p2): (u64, usize) = match r1 {
        Some(x) => x,
        None => (0, 0),
    };
    let r2 = if r1.is_some() {
        eat_lit(bytes, p2, ",\"pasta_price\":\"")
    } else {
        None
    };
    let p3: usize = match r2 {
        Some(p) => p,
        None => 0,
    };
    let r3 = if r2.is_some() {
        eat_digits(bytes, p3)
    } else {
        None
    };
    let ghost g3 = r3;
    let ok3 = r3.is_some();
    let (ds3, p4): (Vec<u8>, usize) = match r3 {
        Some(x) => x,
        None => (Vec::new(), 0),
    };
    let r4 = if ok3 {
        eat_lit(bytes, p4, "\",\"auto_crank_level\":")
    } else {
        None
    };
    let p5: usize = match r4 {
        Some(p) => p,
        None => 0,
    };
    let r5 = if r4.is_some() {
        eat_u64(bytes, p5)
    } else {
        None
    };
    let (v5, p6): (u64, usize) = match r5 {
        Some(x) => x,
        None => (0, 0),
    };
    let r6 = if r5.is_some() {
        eat_lit(bytes, p6, ",\"auto_knead_level\":")
    } else {
        None
    };
    let p7: usize = match r6 {
        Some(p) => p,
        None => 0,
    };
    let r7 = if r6.is_some() {
        eat_u64(bytes, p7)
    } else {
        None
    };
    let (v7, p8): (u64, usize) = match r7 {
        Some(x) => x,
        None => (0, 0),
    };
    let r8 = if r7.is_some() {
        eat_lit(bytes, p8, "},\"state\":{\"money\":\"")
    } else {
        None
    };
    let p9: usize = match r8 {
        Some(p) => p,
        None => 0,
    };
    let r9 = if r8.is_some() {
        eat_digits(bytes, p9)
    } else {
        None
    };
    let ghost g9 = r9;
    let ok9 = r9.is_some();
    let (ds9, p10): (Vec<u8>, usize) = match r9 {
        Some(x) => x,
        None => (Vec::new(), 0),
    };
    let r10 = if ok9 {
        eat_lit(bytes, p10, "\",\"diamonds\":\"")
    } else {
        None
    };
    let p11: usize = match r10 {
        Some(p) => p,
        None => 0,
    };
    let r11 = if r10.is_some() {
        eat_digits(bytes, p11)
    } else {
        None
    };
    let ghost g11 = r11;
    let ok11 = r11.is_some();
    let (ds11, p12): (Vec<u8>, usize) = match r11 {
        Some(x) => x,
        None => (Vec::new(), 0),
    };
    let r12 = if ok11 {
        eat_lit(bytes, p12, "\",\"dough_balls\":\"")
    } else {
        None
    };
    let p13: usize = match r12 {
        Some(p) => p,
        None => 0,
    };
    let r13 = if r12.is_some() {
        eat_digits(bytes, p13)
    } else {
        None
    };
    let ghost g13 = r13;
    let ok13 = r13.is_some();
    let (ds13, p14): (Vec<u8>, usize) = match r13 {
        Some(x) => x,
        None => (Vec::new(), 0),
    };
    let r14 = if ok13 {
        eat_lit(bytes, p14, "\"},\"menu_counts\":[")
    } else {
        None
    };
    let p15: usize = match r14 {
        Some(p) => p,
        None => 0,
    };
    let r15 = if r14.is_some() {
        eat_u64(bytes, p15)
    } else {
        None
    };
    let (v15, p16): (u64, usize) = match r15 {
        Some(x) => x,
        None => (0, 0),
    };
    let r16 = if r15.is_some() {
        eat_lit(bytes, p16, ",")
    } else {
        None
    };
    let p17: usize = match r16 {
        Some(p) => p,
        None => 0,
    };
    let r17 = if r16.is_some() {
        eat_u64(bytes, p17)
    } else {
        None
    };
    let (v17, p18): (u64, usize) = match r17 {
        Some(x) => x,
        None => (0, 0),
    };
    let r18 = if r17.is_some() {
        eat_lit(bytes, p18, ",")
    } else {
        None
    };
    let p19: usize = match r18 {
        Some(p) => p,
        None => 0,
    };
    let r19 = if r18.is_some() {
        eat_u64(bytes, p19)
    } else {
        None
    };
    let (v19, p20): (u64, usize) = match r19 {
        Some(x) => x,
        None => (0, 0),
    };
    let r20 = if r19.is_some() {
        eat_lit(bytes, p20, ",")
    } else {
        None
    };
    let p21: usize = match r20 {
        Some(p) => p,
        None => 0,
    };
    let r21 = if r20.is_some() {
        eat_u64(bytes, p21)
    } else {
        None
    };
    let (v21, p22): (u64, usize) = match r21 {
        Some(x) => x,
        None => (0, 0),
    };
    let r22 = if r21.is_some() {
        eat_lit(bytes, p22, "]}")
    } else {
        None
    };
    let p23: usize = match r22 {
        Some(p) => p,
        None => 0,
    };
    let complete = r22.is_some() && p23 == bytes.len();
    let valid = v1 <= FILL_SCALE_PPM && v5 <= MAX_UPGRADE_COUNT + 1 && v7
        <= MAX_UPGRADE_COUNT + 1;
    let mut menu_counts: Vec<u64> = Vec::new();
    menu_counts.push(v15);
    menu_counts.push(v17);
    menu_counts.push(v19);
    menu_counts.push(v21);
    let snapshot = SaveState {
        parameters: CoreParameters {
            knead_tick_size: v1,
            pasta_price: GameUInt::new(ds3),
            auto_crank_level: v5,
            auto_knead_level: v7,
        },
        state: CoreState {
            money: GameUInt::new(ds9),
            diamonds: GameUInt::new(ds11),
            dough_balls: GameUInt::new(ds13),
        },
        menu_counts,
    };
    let ghost snap = snapshot;
    let result: Option<SaveState> = if complete && valid {
        let reencoded = encode_save(&snapshot);
        if bytes_eq(&reencoded, bytes) {
            Some(snapshot)
        } else {
            None
        }
    } else {
        None
    };
    proof {
        lemma_decode_walk_params(bytes@, r0, p1, r1, v1, p2, r2, p3, g3, p4, r4, p5, r5, v5, p6);
        lemma_decode_walk_balances(bytes@, r5.is_some(), p6, r6, p7, r7, v7, p8, r8, p9, g9, p10, r10, p11, g11, p12);
        lemma_decode_walk_reserve(bytes@, ok11, p12, r12, p13, g13, p14, r14, p15, r15, v15, p16, r16, p17, r17, v17, p18);
        lemma_decode_walk_counts(bytes@, r17.is_some(), p18, r18, p19, r19, v19, p20, r20, p21, r21, v21, p22, r22, p23);
        assert forall|s: SaveState|
            s.wf() && bytes@ == #[trigger] spec_save_bytes(&s) implies (result is Some
            && result->Some_0.agrees_with(&s)) by {
            assert(complete);
            assert(valid);
            assert(snap.menu_counts@ =~= s.menu_counts@);
            assert(snap.agrees_with(&s));
            lemma_save_bytes_congruence(&snap, &s);
            assert(result is Some);
            assert(result->Some_0.agrees_with(&s));
        }
    }
    result
}

} // verus!
