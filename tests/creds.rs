use imap_bar::creds::{ConfigError, Creds};

#[test]
fn test_parse_empty() {
    let c = Creds::from_mutt("");
    assert_eq!(993, c.port);
    assert_eq!("", c.host);
    assert_eq!("", c.user);
    assert_eq!("", c.pass);
}

#[test]
fn test_parse() {
    let text = "\nset imap_user = 'my_user'\nset imap_pass = \"my_pass\"\nset folder    = imaps://host.name:123/\n";
    let c = Creds::from_mutt(text);
    assert_eq!(123, c.port);
    assert_eq!("host.name", c.host);
    assert_eq!("my_user", c.user);
    assert_eq!("my_pass", c.pass);
}

#[test]
fn mutt_example_com() {
    let text = "imap_user='a'\nimap_pass=\"b\"\nfolder=imaps://example.com:143/\n";
    let c = Creds::from_mutt(text);
    assert_eq!("example.com", c.host);
    assert_eq!(143, c.port);
    assert_eq!("a", c.user);
    assert_eq!("b", c.pass);
}

#[test]
fn mutt_folder_without_port_keeps_default() {
    let c = Creds::from_mutt("set folder = 'imaps://Mail.Example.ORG/'\r\n");
    assert_eq!("mail.example.org", c.host);
    assert_eq!(993, c.port);
}

#[test]
fn mutt_last_directive_wins_and_lines_without_eq_are_ignored() {
    let text = "set imap_user = first\nset imap_user second\nset imap_user = \"last\"\n# no key here = x\n";
    let c = Creds::from_mutt(text);
    assert_eq!("last", c.user);
    assert_eq!("", c.pass);
    assert_eq!("", c.host);
}

#[test]
fn mutt_pass_command_is_detected() {
    let c = Creds::from_mutt("set imap_pass = `pass show mail`\n");
    assert_eq!("`pass show mail`", c.pass);
    assert_eq!(Some(String::from("pass show mail")), c.pass_command());
    let plain = Creds::from_mutt("set imap_pass = secret\n");
    assert_eq!(None, plain.pass_command());
}

#[test]
fn pass_from_command_output_takes_first_line() {
    let mut c = Creds::from_mutt("set imap_user = u\n");
    c.set_pass_from_output("hunter2\r\nsecond line\n");
    assert_eq!("hunter2", c.pass);
    assert_eq!("u", c.user);
    c.set_pass_from_output("only\r");
    assert_eq!("only\r", c.pass);
}

#[test]
fn stdin_reads_password_user_and_host() {
    let c = Creds::from_stdin("  s3cret \nuser:bob\nimap:mail.example.com:143\n").unwrap();
    assert_eq!("s3cret", c.pass);
    assert_eq!("bob", c.user);
    assert_eq!("mail.example.com", c.host);
    assert_eq!(143, c.port);
}

#[test]
fn stdin_host_without_port_keeps_default() {
    let c = Creds::from_stdin("pw\nimap:mail.example.com\nnoise\n").unwrap();
    assert_eq!("mail.example.com", c.host);
    assert_eq!(993, c.port);
    assert_eq!("", c.user);
}

#[test]
fn stdin_empty_gives_defaults() {
    let c = Creds::from_stdin("").unwrap();
    assert_eq!("", c.pass);
    assert_eq!("", c.user);
    assert_eq!("", c.host);
    assert_eq!(993, c.port);
}

#[test]
fn stdin_malformed_port_is_config_error() {
    assert_eq!(
        Err(ConfigError::MalformedPort),
        Creds::from_stdin("pw\nimap:host:99999\n").map(|c| c.port)
    );
    assert_eq!(
        Err(ConfigError::MalformedPort),
        Creds::from_stdin("pw\nimap:host:abc\n").map(|c| c.port)
    );
    assert_eq!(Ok(7), Creds::from_stdin("pw\nimap:host:+7").map(|c| c.port));
}

#[test]
fn describe_hides_secrets() {
    let c = Creds::from_stdin("topsecret\nuser:alice\nimap:h.example:144\n").unwrap();
    let d = c.describe();
    assert_eq!("Creds { host: \"h.example\", port: 144 }", d);
    assert!(!d.contains("topsecret"));
    assert!(!d.contains("alice"));
}

#[test]
fn describe_escapes_host_as_debug_does() {
    let c = Creds::from_stdin("pw\nimap:we\"ird:993\n").unwrap();
    assert_eq!("Creds { host: \"we\\\"ird\", port: 993 }", c.describe());
    assert_eq!(
        "Creds { host: \"x\", port: 0 }",
        Creds::describe_quoted("\"x\"", 0)
    );
}
