use vstd::prelude::*;

use crate::error::XfoilError;
use crate::text::dec_seq;
use crate::text::decimal_string;

verus! {

// ---------------------------------------------------------------------------
// Views
// ---------------------------------------------------------------------------

/// The analysis mode: run at a fixed angle of attack, or drive the run to a
/// target lift coefficient.  The value is carried as the decimal text that
/// goes into the run command.
pub enum ModeView {
    Angle(Seq<char>),
    Cl(Seq<char>),
}

/// The mathematical content of a [`Config`].
pub struct ConfigView {
    /// Path of the Xfoil executable.
    pub path: Seq<char>,
    /// Four-digit NACA code, when the airfoil comes from one.
    pub naca: Option<Seq<char>>,
    /// Path of a coordinate file, when the airfoil comes from one.
    pub dat_file: Option<Seq<char>>,
    /// Reynolds number of a viscous run; absent means inviscid.
    pub reynolds: Option<int>,
    /// Path of the polar capture file, when capture was requested.
    pub polar: Option<Seq<char>>,
    /// The analysis mode.
    pub mode: ModeView,
}

/// The mathematical content of an [`XfoilRunner`].
pub struct RunnerView {
    /// Path of the Xfoil executable.
    pub path: Seq<char>,
    /// The rendered command sequence, in order.
    pub commands: Seq<Seq<char>>,
    /// Path of the polar capture file, when capture was requested.
    pub polar: Option<Seq<char>>,
}

/// The view of an optional owned string.
pub open spec fn opt_view(o: Option<String>) -> Option<Seq<char>> {
    match o {
        Some(s) => Some(s@),
        None => None,
    }
}

// ---------------------------------------------------------------------------
// The rendered command sequence
// ---------------------------------------------------------------------------

/// The opening commands: leave the plotting menu with graphics disabled, so
/// the tool never blocks on a window.
pub open spec fn graphics_cmds() -> Seq<Seq<char>> {
    seq!["plop"@, "G"@, "\n"@]
}

/// The airfoil selection commands.  A NACA code takes precedence over a
/// coordinate file; loading a file needs a blank acknowledgment line after
/// it.  Empty when no source is set (no runner is built then).
pub open spec fn airfoil_cmds(c: ConfigView) -> Seq<Seq<char>> {
    if c.naca is Some {
        seq!["naca "@ + c.naca.unwrap()]
    } else if c.dat_file is Some {
        seq!["load "@ + c.dat_file.unwrap(), ""@]
    } else {
        Seq::empty()
    }
}

/// The viscosity commands: enter the operating-point menu, set the Reynolds
/// number, and acknowledge.
pub open spec fn reynolds_cmds(c: ConfigView) -> Seq<Seq<char>> {
    match c.reynolds {
        Some(r) => seq!["oper"@, "v "@ + dec_seq(r), "\n"@],
        None => Seq::empty(),
    }
}

/// The polar accumulation commands: enter the operating-point menu, toggle
/// accumulation, give the capture path, and acknowledge.
pub open spec fn polar_cmds(c: ConfigView) -> Seq<Seq<char>> {
    match c.polar {
        Some(p) => seq!["oper"@, "pacc"@, p, "\n"@],
        None => Seq::empty(),
    }
}

/// The run commands for the configured mode, inside the operating-point
/// menu.
pub open spec fn mode_cmds(c: ConfigView) -> Seq<Seq<char>> {
    match c.mode {
        ModeView::Angle(a) => seq!["oper"@, "a "@ + a, "\n"@],
        ModeView::Cl(v) => seq!["oper"@, "cl "@ + v, "\n"@],
    }
}

/// The whole command sequence of a configuration, in the order Xfoil's menu
/// expects it.
pub open spec fn render(c: ConfigView) -> Seq<Seq<char>> {
    graphics_cmds() + airfoil_cmds(c) + reynolds_cmds(c) + polar_cmds(c) + mode_cmds(c)
        + seq!["quit"@]
}

/// Whether an airfoil source is set, the precondition of building a runner.
pub open spec fn has_airfoil(c: ConfigView) -> bool {
    c.naca is Some || c.dat_file is Some
}

// ---------------------------------------------------------------------------
// Setter transformers
// ---------------------------------------------------------------------------

pub open spec fn with_naca(c: ConfigView, code: Seq<char>) -> ConfigView {
    ConfigView { naca: Some(code), dat_file: None, ..c }
}

pub open spec fn with_dat_file(c: ConfigView, path: Seq<char>) -> ConfigView {
    ConfigView { dat_file: Some(path), naca: None, ..c }
}

pub open spec fn with_reynolds(c: ConfigView, r: int) -> ConfigView {
    ConfigView { reynolds: Some(r), ..c }
}

pub open spec fn with_polar(c: ConfigView, p: Seq<char>) -> ConfigView {
    ConfigView { polar: Some(p), ..c }
}

pub open spec fn with_angle(c: ConfigView, a: Seq<char>) -> ConfigView {
    ConfigView { mode: ModeView::Angle(a), ..c }
}

pub open spec fn with_cl(c: ConfigView, v: Seq<char>) -> ConfigView {
    ConfigView { mode: ModeView::Cl(v), ..c }
}

// ---------------------------------------------------------------------------
// Config
// ---------------------------------------------------------------------------

enum Mode {
    Angle(String),
    Cl(String),
}

/// Tracks an Xfoil configuration; built by chained setters and finalized
/// into an [`XfoilRunner`].
pub struct Config {
    mode: Mode,
    reynolds: Option<usize>,
    path: String,
    polar: Option<String>,
    naca: Option<String>,
    dat_file: Option<String>,
}

impl View for Config {
    type V = ConfigView;

    closed spec fn view(&self) -> ConfigView {
        ConfigView {
            path: self.path@,
            naca: opt_view(self.naca),
            dat_file: opt_view(self.dat_file),
            reynolds: match self.reynolds {
                Some(r) => Some(r as int),
                None => None,
            },
            polar: opt_view(self.polar),
            mode: match self.mode {
                Mode::Angle(a) => ModeView::Angle(a@),
                Mode::Cl(v) => ModeView::Cl(v@),
            },
        }
    }
}

impl Config {
    /// Creates a configuration for the Xfoil executable at `path`, with no
    /// airfoil source, an inviscid run, no capture, and an angle of attack
    /// of zero.
    pub fn new(path: &str) -> (c: Self)
        ensures
            c@ == (ConfigView {
                path: path@,
                naca: None,
                dat_file: None,
                reynolds: None,
                polar: None,
                mode: ModeView::Angle("0"@),
            }),
    {
        Self {
            mode: Mode::Angle("0".to_owned()),
            reynolds: None,
            path: path.to_owned(),
            polar: None,
            naca: None,
            dat_file: None,
        }
    }

    /// Selects the airfoil by a four-digit NACA code, clearing any
    /// previously set coordinate file.
    pub fn naca(self, code: &str) -> (r: Self)
        ensures
            r@ == with_naca(self@, code@),
    {
        Self { naca: Some(code.to_owned()), dat_file: None, ..self }
    }

    /// Selects the airfoil by a coordinate file, clearing any previously set
    /// NACA code.
    pub fn airfoil_polar_file(self, path: &str) -> (r: Self)
        ensures
            r@ == with_dat_file(self@, path@),
    {
        Self { dat_file: Some(path.to_owned()), naca: None, ..self }
    }

    /// Sets the Reynolds number, switching the analysis to a viscous run.
    pub fn reynolds(self, reynolds: usize) -> (r: Self)
        ensures
            r@ == with_reynolds(self@, reynolds as int),
    {
        Self { reynolds: Some(reynolds), ..self }
    }

    /// Sets the path of the polar file Xfoil accumulates its results into.
    pub fn polar_accumulation(self, fname: &str) -> (r: Self)
        ensures
            r@ == with_polar(self@, fname@),
    {
        Self { polar: Some(fname.to_owned()), ..self }
    }

    /// Sets the angle of attack, in degrees, as decimal text.  A previously
    /// set lift-coefficient target is overwritten.
    pub fn angle_of_attack(self, angle: &str) -> (r: Self)
        ensures
            r@ == with_angle(self@, angle@),
    {
        Self { mode: Mode::Angle(angle.to_owned()), ..self }
    }

    /// Sets a target lift coefficient, as decimal text.  A previously set
    /// angle of attack is overwritten.
    pub fn lift_coefficient(self, cl: &str) -> (r: Self)
        ensures
            r@ == with_cl(self@, cl@),
    {
        Self { mode: Mode::Cl(cl.to_owned()), ..self }
    }

    /// Renders the command sequence and hands it over as a runner.  Fails
    /// with a configuration error when no airfoil source is set; succeeds
    /// exactly otherwise.
    pub fn get_runner(self) -> (r: Result<XfoilRunner, XfoilError>)
        ensures
            r is Ok <==> has_airfoil(self@),
            !has_airfoil(self@) ==> r == Err::<XfoilRunner, XfoilError>(XfoilError::ConfigError),
            r matches Ok(runner) ==> runner@ == (RunnerView {
                path: self@.path,
                commands: render(self@),
                polar: self@.polar,
            }),
    {
        let ghost cv = self@;
        let Config { mode, reynolds, path, polar, naca, dat_file } = self;
        let mut commands: Vec<String> = Vec::new();
        commands.push("plop".to_owned());
        commands.push("G".to_owned());
        commands.push("\n".to_owned());
        proof {
            assert(commands.deep_view() =~= graphics_cmds());
        }

        if let Some(code) = naca {
            commands.push("naca ".to_owned().concat(code.as_str()));
        } else if let Some(dat) = dat_file {
            commands.push("load ".to_owned().concat(dat.as_str()));
            commands.push("".to_owned());
        } else {
            return Err(XfoilError::ConfigError);
        }
        proof {
            assert(commands.deep_view() =~= graphics_cmds() + airfoil_cmds(cv));
        }

        if let Some(re) = reynolds {
            commands.push("oper".to_owned());
            commands.push("v ".to_owned().concat(decimal_string(re).as_str()));
            commands.push("\n".to_owned());
        }
        proof {
            assert(commands.deep_view() =~= graphics_cmds() + airfoil_cmds(cv) + reynolds_cmds(
                cv,
            ));
        }

        if let Some(p) = &polar {
            commands.push("oper".to_owned());
            commands.push("pacc".to_owned());
            commands.push(p.clone());
            commands.push("\n".to_owned());
        }
        proof {
            assert(commands.deep_view() =~= graphics_cmds() + airfoil_cmds(cv) + reynolds_cmds(cv)
                + polar_cmds(cv));
        }

        match &mode {
            Mode::Angle(a) => {
                commands.push("oper".to_owned());
                commands.push("a ".to_owned().concat(a.as_str()));
                commands.push("\n".to_owned());
            },
            Mode::Cl(v) => {
                commands.push("oper".to_owned());
                commands.push("cl ".to_owned().concat(v.as_str()));
                commands.push("\n".to_owned());
            },
        }
        commands.push("quit".to_owned());
        proof {
            assert(commands.deep_view() =~= render(cv));
        }

        Ok(XfoilRunner { xfoil_path: path, command_sequence: commands, polar })
    }
}

// ---------------------------------------------------------------------------
// XfoilRunner
// ---------------------------------------------------------------------------

/// The finalized run: the executable path, the rendered command sequence,
/// and the capture path if one was configured.  The caller feeds the
/// commands to the process, one per line; this library only prepares them.
pub struct XfoilRunner {
    xfoil_path: String,
    command_sequence: Vec<String>,
    polar: Option<String>,
}

impl View for XfoilRunner {
    type V = RunnerView;

    closed spec fn view(&self) -> RunnerView {
        RunnerView {
            path: self.xfoil_path@,
            commands: self.command_sequence.deep_view(),
            polar: opt_view(self.polar),
        }
    }
}

impl XfoilRunner {
    /// The path of the Xfoil executable this runner was configured with.
    pub fn xfoil_path(&self) -> (r: &String)
        ensures
            r@ == self@.path,
    {
        &self.xfoil_path
    }

    /// The rendered command sequence, in the order it must be written to
    /// the process.
    pub fn command_sequence(&self) -> (r: &Vec<String>)
        ensures
            r.deep_view() == self@.commands,
    {
        &self.command_sequence
    }

    /// The polar capture path, when capture was configured.
    pub fn polar_path(&self) -> (r: &Option<String>)
        ensures
            opt_view(*r) == self@.polar,
    {
        &self.polar
    }
}

} // verus!
