use revision_control::command::CommandOutput;
use revision_control::darcs::collect_darcs_info;
use revision_control::darcs::extract_key_value;
use revision_control::darcs::find_attr_value;
use revision_control::darcs::patch_hash_from_changes;
use revision_control::darcs::patch_hash_from_xml;
use revision_control::darcs::whatsnew_diff;

fn ok(stdout: &str) -> Option<CommandOutput> {
    Some(CommandOutput { code: Some(0), stdout: stdout.as_bytes().to_vec(), stderr: Vec::new() })
}

#[test]
fn key_value_ignores_case_and_blank_values() {
    let text = "  Repository: /r\n\ndefault remote:   \nDEFAULT REMOTE: http://x:80/y \n";
    assert_eq!(extract_key_value(text, "Default Remote"), Some("http://x:80/y".to_string()));
    assert_eq!(extract_key_value(text, "Missing"), None);
}

#[test]
fn attribute_in_double_or_single_quotes() {
    assert_eq!(find_attr_value("<patch hash=\" 123abc \" x='1'>", "hash"), Some("123abc".to_string()));
    assert_eq!(find_attr_value("<patch hash='f00'>", "hash"), Some("f00".to_string()));
    assert_eq!(find_attr_value("<patch hash=\"\" >", "hash"), None);
    assert_eq!(find_attr_value("<patch>", "hash"), None);
}

#[test]
fn darcs_info_reads_show_repo() {
    let show = "Type: darcs\nDefault Remote: /srv/repo\nCurrent Branch: trunk\n";
    let info = collect_darcs_info(ok(show), Some("h1".to_string())).expect("info");
    assert_eq!(info.default_remote, Some("/srv/repo".to_string()));
    assert_eq!(info.branch, Some("trunk".to_string()));
    assert_eq!(info.patch_hash, Some("h1".to_string()));
    assert!(collect_darcs_info(None, None).is_none());
}

#[test]
fn patch_hash_from_both_formats() {
    assert_eq!(patch_hash_from_xml(ok("<changelog><patch hash='abc'/></changelog>")), Some("abc".to_string()));
    assert_eq!(patch_hash_from_changes(ok("patch 1\nPatch hash: def\n")), Some("def".to_string()));
    assert_eq!(patch_hash_from_xml(None), None);
}

#[test]
fn whatsnew_status_one_is_a_diff() {
    let out = CommandOutput { code: Some(1), stdout: b"hunk".to_vec(), stderr: Vec::new() };
    assert_eq!(whatsnew_diff(&out), Some("hunk".to_string()));
    let bad = CommandOutput { code: Some(2), stdout: b"hunk".to_vec(), stderr: Vec::new() };
    assert_eq!(whatsnew_diff(&bad), None);
    let lossy = CommandOutput { code: Some(0), stdout: vec![b'a', 0xff], stderr: Vec::new() };
    assert_eq!(whatsnew_diff(&lossy), Some("a\u{fffd}".to_string()));
}
