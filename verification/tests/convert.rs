use age_plugin_yubikey_agent::cli::Mode;
use age_plugin_yubikey_agent::convert_identities::{
    assemble, convert_identities, convert_line, ConvertError,
};
use age_plugin_yubikey_agent::lines::split_lines;
use age_plugin_yubikey_agent::rewrite::{
    backup_path, check_backup, conversion, rewrite, tmp_path, FileOp,
};
use age_plugin_yubikey_agent::socket::{bind, BindDecision, FILENAME, IN_USE, XDG_PREFIX};
use age_plugin_yubikey_agent::stanza::IdentityStub;
use age_plugin_yubikey_agent::text::{chars_of, has_prefix, string_of};

// Serial 42, slot 0x82, tag aabbccdd.
const PAYLOAD: [u8; 9] = [42, 0, 0, 0, 0x82, 0xAA, 0xBB, 0xCC, 0xDD];
const OLD: &str = "AGE-PLUGIN-YUBIKEY-19GQQQQYZ42AUEHGTEA44K";
const NEW: &str = "AGE-PLUGIN-YUBIKEY-AGENT-19GQQQQYZ42AUEHGCKQQND";

fn old_identity(data: &[u8]) -> String {
    let hrp = bech32::Hrp::parse("age-plugin-yubikey-").unwrap();
    bech32::encode_upper::<bech32::Bech32>(hrp, data).unwrap()
}

fn converted(content: &str) -> Option<String> {
    match convert_identities(content) {
        Ok(new) => new,
        Err(e) => panic!("{e:?}"),
    }
}

#[test]
fn identity_line_is_re_encoded() {
    assert_eq!(old_identity(&PAYLOAD), OLD);
    assert_eq!(convert_line(OLD).unwrap(), Some(NEW.to_string()));
    let (_, data) = bech32::decode(NEW).unwrap();
    assert_eq!(data, PAYLOAD);
}

#[test]
fn converted_identity_has_the_same_stub() {
    let mut data = PAYLOAD.to_vec();
    data.extend_from_slice(&[1, 2]);
    let new = convert_line(&old_identity(&data)).unwrap().unwrap();
    let (_, payload) = bech32::decode(&new).unwrap();
    let (stub, rest) = IdentityStub::read_from_prefix(&payload).unwrap();
    assert_eq!((stub.serial, stub.slot), (42, 0x82));
    assert_eq!(stub.tag, [0xAA, 0xBB, 0xCC, 0xDD]);
    assert_eq!(rest, [1, 2]);
}

#[test]
fn other_lines_stay() {
    for line in ["", "# a comment", NEW, "AGE-SECRET-KEY-1", "age-plugin-yubikey-1q"] {
        assert_eq!(convert_line(line).unwrap(), None);
    }
    let indented = format!(" {OLD}");
    assert_eq!(convert_line(&indented).unwrap(), None);
}

#[test]
fn broken_identity_stops_the_conversion() {
    let mut broken = OLD.to_string();
    broken.pop();
    broken.push('Q');
    assert!(matches!(convert_line(&broken), Err(ConvertError::Decode(_))));
    let trailing = format!("{OLD} ");
    assert!(matches!(convert_line(&trailing), Err(ConvertError::Decode(_))));
    let content = format!("{OLD}\n{broken}\n");
    assert!(matches!(convert_identities(&content), Err(ConvertError::Decode(_))));
}

#[test]
fn payload_too_long_for_the_new_prefix() {
    let fits = vec![0x5A; 619];
    let new = convert_line(&old_identity(&fits)).unwrap().unwrap();
    assert_eq!(new.len(), 1023);
    assert_eq!(bech32::decode(&new).unwrap().1, fits);
    let line = old_identity(&[0x5A; 620]);
    assert!(matches!(convert_line(&line), Err(ConvertError::Encode(_))));
    let content = format!("{OLD}\n{line}\n");
    assert!(matches!(convert_identities(&content), Err(ConvertError::Encode(_))));
}

#[test]
fn file_is_converted_line_by_line() {
    let other = old_identity(&[1; 9]);
    let content = format!("#       Serial: 42\n{OLD}\n\n{other}\nlast");
    let other_new = convert_line(&other).unwrap().unwrap();
    assert_eq!(
        converted(&content),
        Some(format!("#       Serial: 42\n{NEW}\n\n{other_new}\nlast\n"))
    );
}

#[test]
fn carriage_returns_are_dropped() {
    let content = format!("# comment\r\n{OLD}\r\n");
    assert_eq!(converted(&content), Some(format!("# comment\n{NEW}\n")));
}

#[test]
fn nothing_to_convert() {
    assert_eq!(converted(""), None);
    assert_eq!(converted("# comment\r\nno identity"), None);
    assert_eq!(converted(&format!("{NEW}\n")), None);
}

#[test]
fn converting_again_finds_nothing() {
    let once = converted(&format!("a\r\r\n{OLD}")).unwrap();
    assert_eq!(once, format!("a\r\n{NEW}\n"));
    assert_eq!(converted(&once), None);
}

#[test]
fn lines_put_together() {
    let lines = vec!["a".to_string(), "b".to_string()];
    let replaced = vec![None, Some("c".to_string())];
    assert_eq!(assemble(&lines, &replaced), Some("a\nc\n".to_string()));
    assert_eq!(assemble(&lines, &vec![None, None]), None);
    assert_eq!(assemble(&vec![], &vec![]), None);
}

#[test]
fn lines_of_a_text() {
    for text in ["", "\n", "a", "a\n", "a\nb", "a\r\nb\r\n", "\r\n", "a\r", "a\r\r\n", "\n\n", "é\nü"] {
        let expected: Vec<&str> = text.lines().collect();
        assert_eq!(split_lines(text), expected);
    }
}

#[test]
fn lines_written_and_read_again() {
    let lines = ["", "x", "y z"];
    let text: String = lines.iter().map(|l| format!("{l}\n")).collect();
    assert_eq!(split_lines(&text), lines);
}

#[test]
fn existing_backup_is_refused() {
    assert!(check_backup("/tmp/id", false).is_ok());
    match check_backup("/tmp/id", true) {
        Err(ConvertError::BackupExists(message)) => assert_eq!(
            message,
            "refusing to overwrite existing backup at /tmp/id.bak; move or remove it and rerun"
        ),
        _ => panic!("not refused"),
    }
}

fn rewriting(path: &str, content: &str) -> Vec<FileOp> {
    vec![
        FileOp::Copy { from: path.to_string(), to: format!("{path}.bak") },
        FileOp::Write { to: format!("{path}.tmp"), content: content.to_string() },
        FileOp::Rename { from: format!("{path}.tmp"), to: path.to_string() },
    ]
}

#[test]
fn rewriting_backs_up_first_and_renames_last() {
    assert_eq!(backup_path("id"), "id.bak");
    assert_eq!(tmp_path("id"), "id.tmp");
    assert_eq!(rewrite("id", "x\n".to_string()), rewriting("id", "x\n"));
}

#[test]
fn conversion_of_a_file() {
    let ops = conversion("id", &format!("{OLD}\n")).unwrap();
    assert_eq!(ops, rewriting("id", &format!("{NEW}\n")));
    assert_eq!(conversion("id", "# nothing\n").unwrap(), []);
    assert!(matches!(
        conversion("id", "AGE-PLUGIN-YUBIKEY-1"),
        Err(ConvertError::Decode(_))
    ));
}

#[test]
fn rewriting_never_loses_the_old_content() {
    let mut files = std::collections::HashMap::from([
        ("id".to_string(), "old".to_string()),
        ("other".to_string(), "kept".to_string()),
    ]);
    for op in rewrite("id", "new".to_string()) {
        assert_eq!(files["id"], "old");
        match op {
            FileOp::Copy { from, to } => {
                let content = files[&from].clone();
                files.insert(to, content);
            }
            FileOp::Write { to, content } => {
                files.insert(to, content);
            }
            FileOp::Rename { from, to } => {
                let content = files.remove(&from).unwrap();
                files.insert(to, content);
            }
        }
    }
    assert_eq!(files["id"], "new");
    assert_eq!(files["id.bak"], "old");
    assert_eq!(files["other"], "kept");
    assert_eq!(files.len(), 3);
}

#[test]
fn first_argument_picks_the_mode() {
    assert_eq!(Mode::from_arg(None), Mode::Daemon);
    assert_eq!(
        Mode::from_arg(Some("--age-plugin=identity-v1".to_string())),
        Mode::Plugin("identity-v1".to_string())
    );
    assert_eq!(
        Mode::from_arg(Some("--age-plugin=".to_string())),
        Mode::Plugin(String::new())
    );
    for path in ["identities.txt", "--age-plugin", "", "x--age-plugin=y", "--help"] {
        assert_eq!(
            Mode::from_arg(Some(path.to_string())),
            Mode::Convert(path.to_string())
        );
    }
}

#[test]
fn socket_in_use_is_left_alone() {
    assert_eq!(bind(false, false), BindDecision::Bind);
    assert_eq!(bind(true, true), BindDecision::InUse);
    assert_eq!(bind(true, false), BindDecision::RemoveStale);
    assert_eq!(XDG_PREFIX, "com.brongan.age-plugin-yubikey-agent");
    assert_eq!(FILENAME, "daemon.sock");
    assert_eq!(IN_USE, "another daemon is already listening on this socket");
}

#[test]
fn characters_of_a_text() {
    assert_eq!(chars_of("aé"), ['a', 'é']);
    assert_eq!(string_of(&['a', 'é']), "aé");
    assert!(has_prefix(&['a', 'b'], "a"));
    assert!(has_prefix(&['a'], ""));
    assert!(!has_prefix(&['a'], "ab"));
    assert!(!has_prefix(&['b', 'a'], "a"));
}
