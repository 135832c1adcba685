//! What the manual page and the module's source say, on samples of both.

use facelock::man_pam::{
    declared_codes, documented_config_schema, documented_invocations, macro_arguments,
    man_section, pam_config_schema, pam_return_codes, pam_source_constant, struct_fields,
    user_grantable_methods, walk_config_struct, ConfigKey,
};
use facelock::pam::plan::sensitive;

const MAN_PAGE: &str = ".TH PAM_FACELOCK 8
.SH NAME
pam_facelock
.SH OPTIONS
The module takes no arguments.
.SH RETURN VALUES
.TP
.B PAM_SUCCESS
The face matched.
.TP
.B PAM_AUTH_ERR
It did not.
.TP
.B PAM_IGNORE
.TP
.BR PAM_AUTHINFO_UNAVAIL
.SH CONFIGURATION
.B [recognition]
.BR timeout_secs
.B [notification]
.BR mode , notify_prompt
.B [security]
.BR rate_limit
.B [security.rate_limit]
.BR max_attempts
.B FACELOCK_SOMETHING
.SH EXAMPLES
.nf
sudo facelock setup --pam --service polkit-1
  facelock status
cat /etc/pam.d/sudo
.fi
facelock outside of an example
";

const PAM_SOURCE: &str = "
const PAM_SUCCESS: libc::c_int = 0;
const PAM_AUTH_ERR: libc::c_int = 7;
const PAM_IGNORE: libc::c_int = 25;
const PAM_AUTHINFO_UNAVAIL: libc::c_int = 9;
const PAM_TEXT_INFO: libc::c_int = 4;
const PAM_NAME: &str = \"x\";
const DEFAULT_CONFIG_PATH: &str = \"/etc/facelock/config.toml\";

#[derive(Default)]
struct PamConfig {
    #[serde(default)]
    recognition: PamRecognitionConfig,
    /// A comment.
    notification: Option<PamNotificationConfig>,
    security: PamSecurityConfig,
}

struct PamRecognitionConfig {
    timeout_secs: u64,
}

struct PamNotificationConfig {
    mode: String,
    notify_prompt: bool,
}

struct PamSecurityConfig {
    rate_limit: Option<PamRateLimitConfig>,
}

struct PamRateLimitConfig {
    max_attempts: u32,
}

fn answer(
    _argv: *const *const libc::c_char,
) -> libc::c_int {
    if bad {
        return PAM_AUTH_ERR;
    }
    if unknown {
        return PAM_IGNORE;
    }
    match x {
        1 => return PAM_AUTHINFO_UNAVAIL;
    }
    PAM_SUCCESS
}
";

fn bold() -> Vec<String> {
    vec![".B".to_string(), ".BR".to_string()]
}

#[test]
fn pam_man_documents_every_return_code() {
    let section = man_section(MAN_PAGE, "\n.SH RETURN VALUES\n").unwrap();
    let codes = pam_return_codes(PAM_SOURCE);
    assert!(declared_codes(PAM_SOURCE).len() >= 4);
    for required in ["PAM_SUCCESS", "PAM_AUTH_ERR", "PAM_IGNORE"] {
        assert!(codes.iter().any(|code| code == required), "{required}");
    }
    for code in codes {
        assert!(
            macro_arguments(&section, &bold()).contains(&code),
            "`pam_facelock.so` can return `{code}` but the section never names it"
        );
    }
}

#[test]
fn pam_man_invents_no_return_code() {
    let section = man_section(MAN_PAGE, "\n.SH RETURN VALUES\n").unwrap();
    let codes = pam_return_codes(PAM_SOURCE);
    for documented in macro_arguments(&section, &bold()) {
        if !documented.starts_with("PAM_") {
            continue;
        }
        assert!(codes.contains(&documented), "{documented} is never returned");
    }
    // A constant that is never returned is no code.
    assert!(!codes.contains(&"PAM_TEXT_INFO".to_string()));
    assert!(declared_codes(PAM_SOURCE).contains(&"PAM_TEXT_INFO".to_string()));
}

#[test]
fn pam_man_options_match_the_arguments_the_module_parses() {
    let parses_arguments = PAM_SOURCE.contains("\n    argv:");
    let documented =
        macro_arguments(&man_section(MAN_PAGE, "\n.SH OPTIONS\n").unwrap(), &bold());
    assert_eq!(parses_arguments, !documented.is_empty());
}

fn key(table: &str, key: &str) -> ConfigKey {
    ConfigKey { table: table.to_string(), key: key.to_string() }
}

#[test]
fn pam_man_configuration_matches_what_the_module_reads() {
    let actual = pam_config_schema(PAM_SOURCE).unwrap();
    let section = man_section(MAN_PAGE, "\n.SH CONFIGURATION\n").unwrap();
    let documented = documented_config_schema(&section);

    for read in &actual {
        assert!(documented.contains(read), "{read:?} is not documented");
    }
    for named in &documented {
        assert!(actual.contains(named), "{named:?} is not read");
    }
    assert_eq!(
        actual,
        vec![
            key("recognition", "timeout_secs"),
            key("notification", "mode"),
            key("notification", "notify_prompt"),
            key("security", "rate_limit"),
            key("security.rate_limit", "max_attempts"),
        ]
    );
}

#[test]
fn a_struct_is_read_field_by_field() {
    let fields = struct_fields(PAM_SOURCE, "PamConfig").unwrap();
    let names: Vec<&str> = fields.iter().map(|f| f.name.as_str()).collect();
    assert_eq!(names, ["recognition", "notification", "security"]);
    assert_eq!(fields[1].kind, "Option<PamNotificationConfig>");
    assert!(struct_fields(PAM_SOURCE, "PamOtherConfig").is_none());
    // Two levels of tables need a depth of two.
    assert!(walk_config_struct(PAM_SOURCE, "PamConfig", "", 1).is_none());
    assert!(walk_config_struct(PAM_SOURCE, "PamConfig", "", 2).is_some());
    // A struct that names itself has no end.
    let endless = "\nstruct PamConfig {\n    a: Option<PamConfig>,\n}\n";
    assert!(pam_config_schema(endless).is_none());
}

#[test]
fn a_constant_is_read_between_its_quotes() {
    assert_eq!(
        pam_source_constant(PAM_SOURCE, "DEFAULT_CONFIG_PATH"),
        Some("/etc/facelock/config.toml".to_string())
    );
    assert_eq!(pam_source_constant(PAM_SOURCE, "AUTH_BIN"), None);
}

#[test]
fn grants_are_read_off_the_policy() {
    let policy = "<policy context=\"default\">\n  <allow\n    send_member=\"Authenticate\"\n  />\n  send_member=\"open\n";
    assert_eq!(user_grantable_methods(policy), vec!["Authenticate"]);
}

#[test]
fn examples_are_commands_of_this_program_in_a_block() {
    let found = documented_invocations(MAN_PAGE);
    assert_eq!(
        found,
        vec![
            vec!["facelock", "setup", "--pam", "--service", "polkit-1"],
            vec!["facelock", "status"],
        ]
    );
    // None of them writes into a sensitive service.
    assert!(found.iter().flatten().all(|word| !sensitive(word)));
}

#[test]
fn a_missing_section_is_none() {
    assert_eq!(man_section(MAN_PAGE, "\n.SH BUGS\n"), None);
    assert_eq!(
        man_section(MAN_PAGE, "\n.SH NAME\n"),
        Some("pam_facelock".to_string())
    );
}
