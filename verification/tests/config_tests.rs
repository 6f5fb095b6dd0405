use xfoilrs::Config;
use xfoilrs::XfoilError;

fn strings(v: &[&str]) -> Vec<String> {
    v.iter().map(|s| s.to_string()).collect()
}

#[test]
#[should_panic]
fn no_foil() {
    let _runner = Config::new("/usr/local/bin/xfoil").get_runner().unwrap();
}

#[test]
fn no_airfoil_is_config_error() {
    let r = Config::new("/usr/local/bin/xfoil").get_runner();
    assert!(matches!(r, Err(XfoilError::ConfigError)));
    let r = Config::new("/usr/local/bin/xfoil")
        .reynolds(50000)
        .angle_of_attack("3")
        .polar_accumulation("/tmp/polar")
        .get_runner();
    assert!(matches!(r, Err(XfoilError::ConfigError)));
}

#[test]
fn full_sequence_naca_reynolds_angle_capture() {
    let runner = Config::new("/usr/local/bin/xfoil")
        .naca("2414")
        .reynolds(100000)
        .angle_of_attack("4")
        .polar_accumulation("/tmp/out")
        .get_runner()
        .unwrap();
    let expected = strings(&[
        "plop", "G", "\n", "naca 2414", "oper", "v 100000", "\n", "oper", "pacc", "/tmp/out",
        "\n", "oper", "a 4", "\n", "quit",
    ]);
    assert_eq!(runner.command_sequence(), &expected);
    assert_eq!(runner.xfoil_path(), "/usr/local/bin/xfoil");
    assert_eq!(runner.polar_path(), &Some("/tmp/out".to_string()));
}

#[test]
fn minimal_sequence_defaults_to_angle_zero() {
    let runner = Config::new("xfoil").naca("0012").get_runner().unwrap();
    let expected = strings(&["plop", "G", "\n", "naca 0012", "oper", "a 0", "\n", "quit"]);
    assert_eq!(runner.command_sequence(), &expected);
    assert_eq!(runner.polar_path(), &None);
}

#[test]
fn coordinate_file_needs_blank_acknowledgment() {
    let runner = Config::new("xfoil")
        .airfoil_polar_file("wing.dat")
        .lift_coefficient("0.8")
        .get_runner()
        .unwrap();
    let expected = strings(&["plop", "G", "\n", "load wing.dat", "", "oper", "cl 0.8", "\n",
        "quit"]);
    assert_eq!(runner.command_sequence(), &expected);
}

#[test]
fn naca_then_file_leaves_only_the_file() {
    let runner = Config::new("xfoil")
        .naca("2414")
        .airfoil_polar_file("wing.dat")
        .get_runner()
        .unwrap();
    let cmds = runner.command_sequence();
    assert!(cmds.contains(&"load wing.dat".to_string()));
    assert!(cmds.iter().all(|c| !c.starts_with("naca ")));
}

#[test]
fn file_then_naca_leaves_only_the_code() {
    let runner = Config::new("xfoil")
        .airfoil_polar_file("wing.dat")
        .naca("2414")
        .get_runner()
        .unwrap();
    let cmds = runner.command_sequence();
    assert!(cmds.contains(&"naca 2414".to_string()));
    assert!(cmds.iter().all(|c| !c.starts_with("load ")));
}

#[test]
fn angle_then_cl_runs_cl_only() {
    let runner = Config::new("xfoil")
        .naca("0012")
        .angle_of_attack("4")
        .lift_coefficient("0.5")
        .get_runner()
        .unwrap();
    let cmds = runner.command_sequence();
    assert!(cmds.contains(&"cl 0.5".to_string()));
    assert!(cmds.iter().all(|c| !c.starts_with("a ")));
}

#[test]
fn cl_then_angle_runs_angle_only() {
    let runner = Config::new("xfoil")
        .naca("0012")
        .lift_coefficient("0.5")
        .angle_of_attack("4")
        .get_runner()
        .unwrap();
    let cmds = runner.command_sequence();
    assert!(cmds.contains(&"a 4".to_string()));
    assert!(cmds.iter().all(|c| !c.starts_with("cl ")));
}

#[test]
fn sequence_always_framed_by_graphics_disable_and_quit() {
    let configs = vec![
        Config::new("xfoil").naca("0012"),
        Config::new("xfoil").airfoil_polar_file("a.dat").reynolds(1),
        Config::new("xfoil").naca("2414").reynolds(100000).polar_accumulation("p").lift_coefficient("1.0"),
    ];
    for cfg in configs {
        let runner = cfg.get_runner().unwrap();
        let cmds = runner.command_sequence();
        assert_eq!(cmds[0], "plop");
        assert_eq!(cmds[1], "G");
        assert_eq!(cmds[2], "\n");
        assert_eq!(cmds[cmds.len() - 1], "quit");
    }
}

#[test]
fn reynolds_adds_viscosity_command_in_oper_menu() {
    let runner = Config::new("xfoil").naca("0012").reynolds(250000).get_runner().unwrap();
    let cmds = runner.command_sequence();
    let pos = cmds.iter().position(|c| c == "v 250000").unwrap();
    assert_eq!(cmds[pos - 1], "oper");
}

#[test]
fn no_reynolds_means_no_viscosity_command() {
    let runner = Config::new("xfoil").naca("0012").polar_accumulation("/tmp/p").get_runner().unwrap();
    let cmds = runner.command_sequence();
    assert!(cmds.iter().all(|c| !c.starts_with("v ")));
}

#[test]
fn error_messages_name_the_failure() {
    let msg = XfoilError::ConfigError.message();
    assert_eq!(msg, "xfoil cannot run without an airfoil");
    let msg = XfoilError::IoError.message();
    assert!(msg.contains("i/o"));
    let msg = XfoilError::ParseError { line: 13, token: "x".to_string() }.message();
    assert!(msg.contains("number"));
}
