use mcmpi::error::InstallError;
use mcmpi::launcher::fresh_session_name;
use mcmpi::launcher::launch_command;
use mcmpi::launcher::pick_launch_script;
use mcmpi::launcher::session_name;

fn bytes(s: &str) -> Vec<u8> {
    s.as_bytes().to_vec()
}

#[test]
fn primary_script_wins() {
    assert_eq!(pick_launch_script(true, true), Ok(bytes("start.sh")));
    assert_eq!(pick_launch_script(true, false), Ok(bytes("start.sh")));
}

#[test]
fn fallback_script_taken_when_primary_absent() {
    assert_eq!(pick_launch_script(false, true), Ok(bytes("launch.sh")));
}

#[test]
fn missing_scripts_are_an_error() {
    assert_eq!(
        pick_launch_script(false, false),
        Err(InstallError::LaunchScriptMissing)
    );
}

#[test]
fn session_names_carry_the_decimal_suffix() {
    assert_eq!(session_name(123), bytes("mcmpi-123"));
    assert_eq!(session_name(0), bytes("mcmpi-0"));
    assert_eq!(session_name(4294967295), bytes("mcmpi-4294967295"));
}

#[test]
fn fresh_session_names_start_with_the_prefix() {
    let name = fresh_session_name();
    assert!(name.starts_with(b"mcmpi-"));
    assert!(name.len() > "mcmpi-".len());
    assert!(name["mcmpi-".len()..].iter().all(|c| c.is_ascii_digit()));
}

#[test]
fn launch_command_is_the_exact_shell_line() {
    let cmd = launch_command(&bytes("ModPack Alpha"), &bytes("start.sh"));
    assert_eq!(
        String::from_utf8(cmd).unwrap(),
        "cd ModPack Alpha&&chmod +x ./start.sh&&./start.sh\\n"
    );
}
