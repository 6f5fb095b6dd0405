use vstd::prelude::*;

use crate::config::ConfigView;
use crate::config::ModeView;
use crate::config::airfoil_cmds;
use crate::config::graphics_cmds;
use crate::config::mode_cmds;
use crate::config::polar_cmds;
use crate::config::render;
use crate::config::reynolds_cmds;
use crate::config::with_angle;
use crate::config::with_cl;
use crate::config::with_dat_file;
use crate::config::with_naca;
use crate::text::dec_seq;

verus! {

/// The command forms that can appear in a rendered sequence for `c`.
pub open spec fn is_render_cmd(c: ConfigView, s: Seq<char>) -> bool {
    ||| s == "plop"@
    ||| s == "G"@
    ||| s == "\n"@
    ||| s == ""@
    ||| s == "oper"@
    ||| s == "pacc"@
    ||| s == "quit"@
    ||| (c.naca matches Some(code) && s == "naca "@ + code)
    ||| (c.dat_file matches Some(p) && s == "load "@ + p)
    ||| (c.reynolds matches Some(r) && s == "v "@ + dec_seq(r))
    ||| (c.polar matches Some(p) && s == p)
    ||| (c.mode matches ModeView::Angle(a) && s == "a "@ + a)
    ||| (c.mode matches ModeView::Cl(v) && s == "cl "@ + v)
}

/// Every line of a rendered sequence is one of the protocol's commands.
proof fn lemma_render_shape(c: ConfigView)
    ensures
        forall|i: int| 0 <= i < render(c).len() ==> is_render_cmd(c, #[trigger] render(c)[i]),
{
    let cs = render(c);
    let g = graphics_cmds();
    let af = airfoil_cmds(c);
    let re = reynolds_cmds(c);
    let po = polar_cmds(c);
    let mo = mode_cmds(c);
    assert forall|i: int| 0 <= i < cs.len() implies is_render_cmd(c, #[trigger] cs[i]) by {
        let b1 = g.len() as int;
        let b2 = b1 + af.len();
        let b3 = b2 + re.len();
        let b4 = b3 + po.len();
        let b5 = b4 + mo.len();
        if i < b1 {
            assert(cs[i] == g[i]);
        } else if i < b2 {
            assert(cs[i] == af[i - b1]);
        } else if i < b3 {
            assert(cs[i] == re[i - b2]);
        } else if i < b4 {
            assert(cs[i] == po[i - b3]);
        } else if i < b5 {
            assert(cs[i] == mo[i - b4]);
        } else {
            assert(cs[i] == "quit"@);
        }
    }
}

/// A sequence whose first element differs is no prefix.
proof fn lemma_not_prefix(p: Seq<char>, s: Seq<char>)
    requires
        p.len() > 0,
        s.len() > 0,
        p[0] != s[0],
    ensures
        !p.is_prefix_of(s),
{
    if p.is_prefix_of(s) {
        assert(s.subrange(0, p.len() as int)[0] == s[0]);
    }
}

/// No command of the rendered sequence starts with `p` -- a two-character
/// run-command or viscosity prefix -- as long as the option that would
/// produce such a command is off and the capture path does not itself start
/// with it (that path is echoed verbatim into the sequence).
proof fn lemma_no_prefix_of_cmd(c: ConfigView, s: Seq<char>, p: Seq<char>)
    requires
        is_render_cmd(c, s),
        p.len() >= 2,
        p[0] == 'a' || p[0] == 'c' || p[0] == 'v',
        p[0] == 'a' ==> !(c.mode is Angle),
        p[0] == 'c' ==> !(c.mode is Cl),
        p[0] == 'v' ==> c.reynolds is None,
        c.polar matches Some(q) ==> !p.is_prefix_of(q),
    ensures
        !p.is_prefix_of(s),
{
    reveal_strlit("plop");
    reveal_strlit("G");
    reveal_strlit("\n");
    reveal_strlit("");
    reveal_strlit("oper");
    reveal_strlit("pacc");
    reveal_strlit("quit");
    reveal_strlit("naca ");
    reveal_strlit("load ");
    reveal_strlit("v ");
    reveal_strlit("a ");
    reveal_strlit("cl ");
    if s == "plop"@ || s == "oper"@ || s == "pacc"@ || s == "quit"@ {
        lemma_not_prefix(p, s);
    } else if s == "G"@ || s == "\n"@ || s == ""@ {
        assert(s.len() < p.len());
    } else if c.naca matches Some(code) && s == "naca "@ + code {
        assert(s[0] == 'n');
        lemma_not_prefix(p, s);
    } else if c.dat_file matches Some(q) && s == "load "@ + q {
        assert(s[0] == 'l');
        lemma_not_prefix(p, s);
    } else if c.reynolds matches Some(r) && s == "v "@ + dec_seq(r) {
        assert(s[0] == 'v');
        lemma_not_prefix(p, s);
    } else if c.polar matches Some(q) && s == q {
    } else if c.mode matches ModeView::Angle(a) && s == "a "@ + a {
        assert(s[0] == 'a');
        lemma_not_prefix(p, s);
    } else {
        assert(c.mode matches ModeView::Cl(v) && s == "cl "@ + v);
        assert(s[0] == 'c');
        lemma_not_prefix(p, s);
    }
}

/// Selecting one airfoil source clears the other: after any two selections,
/// exactly the later one is active, whatever was set before.
pub proof fn lemma_airfoil_last_write_wins(c: ConfigView, code: Seq<char>, path: Seq<char>)
    ensures
        with_naca(with_dat_file(c, path), code).naca == Some(code),
        with_naca(with_dat_file(c, path), code).dat_file is None,
        with_dat_file(with_naca(c, code), path).dat_file == Some(path),
        with_dat_file(with_naca(c, code), path).naca is None,
{
}

/// Setting one analysis mode overwrites the other: after any two settings,
/// exactly the later one is active.
pub proof fn lemma_mode_last_write_wins(c: ConfigView, angle: Seq<char>, cl: Seq<char>)
    ensures
        with_angle(with_cl(c, cl), angle).mode == ModeView::Angle(angle),
        with_cl(with_angle(c, angle), cl).mode == ModeView::Cl(cl),
{
}

/// The rendered sequence always opens with the graphics-disable commands
/// and always closes with the quit command, whatever else is configured.
pub proof fn lemma_render_frame(c: ConfigView)
    ensures
        render(c).len() >= 7,
        render(c)[0] == "plop"@,
        render(c)[1] == "G"@,
        render(c)[2] == "\n"@,
        render(c).last() == "quit"@,
{
}

/// The rendered sequence carries the run command of the configured mode --
/// third from the end, inside an operating-point entry -- and never the run
/// command of the other mode.  A capture path that itself starts like a run
/// command is left out: it is echoed verbatim into the sequence.
pub proof fn lemma_render_single_mode(c: ConfigView)
    requires
        c.polar matches Some(p) ==> !("a "@.is_prefix_of(p)) && !("cl "@.is_prefix_of(p)),
    ensures
        c.mode matches ModeView::Angle(a) ==> render(c)[render(c).len() - 3] == "a "@ + a,
        c.mode matches ModeView::Cl(v) ==> render(c)[render(c).len() - 3] == "cl "@ + v,
        render(c)[render(c).len() - 4] == "oper"@,
        c.mode is Angle ==> forall|i: int|
            0 <= i < render(c).len() ==> !("cl "@.is_prefix_of(#[trigger] render(c)[i])),
        c.mode is Cl ==> forall|i: int|
            0 <= i < render(c).len() ==> !("a "@.is_prefix_of(#[trigger] render(c)[i])),
{
    reveal_strlit("oper");
    reveal_strlit("a ");
    reveal_strlit("cl ");
    let cs = render(c);
    assert(cs[cs.len() - 3] == mode_cmds(c)[1]);
    assert(cs[cs.len() - 4] == mode_cmds(c)[0]);
    lemma_render_shape(c);
    if c.mode is Angle {
        assert forall|i: int| 0 <= i < cs.len() implies !("cl "@.is_prefix_of(
            #[trigger] cs[i],
        )) by {
            lemma_no_prefix_of_cmd(c, cs[i], "cl "@);
        }
    }
    if c.mode is Cl {
        assert forall|i: int| 0 <= i < cs.len() implies !("a "@.is_prefix_of(
            #[trigger] cs[i],
        )) by {
            lemma_no_prefix_of_cmd(c, cs[i], "a "@);
        }
    }
}

/// When a Reynolds number is set, the sequence carries a viscosity command
/// right after an operating-point entry; when none is set, no line of the
/// sequence starts like one.  A capture path that itself starts like a
/// viscosity command is left out: it is echoed verbatim into the sequence.
pub proof fn lemma_render_viscosity(c: ConfigView)
    requires
        c.polar matches Some(p) ==> !("v "@.is_prefix_of(p)),
    ensures
        c.reynolds matches Some(r) ==> ({
            let i = 3 + airfoil_cmds(c).len() as int;
            &&& render(c)[i] == "oper"@
            &&& render(c)[i + 1] == "v "@ + dec_seq(r)
        }),
        c.reynolds is None ==> forall|i: int|
            0 <= i < render(c).len() ==> !("v "@.is_prefix_of(#[trigger] render(c)[i])),
{
    reveal_strlit("v ");
    let cs = render(c);
    if c.reynolds is Some {
        let i = 3 + airfoil_cmds(c).len() as int;
        assert(cs[i] == reynolds_cmds(c)[0]);
        assert(cs[i + 1] == reynolds_cmds(c)[1]);
    } else {
        lemma_render_shape(c);
        assert forall|i: int| 0 <= i < cs.len() implies !("v "@.is_prefix_of(
            #[trigger] cs[i],
        )) by {
            lemma_no_prefix_of_cmd(c, cs[i], "v "@);
        }
    }
}

} // verus!
