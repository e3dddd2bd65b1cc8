use leaf::clock::{epoch_millis_u64, js_sys_date_now_approx, local_page_label};
use leaf::oauth::{
    code_from_pairs, code_from_redirect, exchange_outcome, google_auth_url, refresh_outcome, request_failed,
    resolve_client_id, timed_out_message,
};
use leaf::settings::{
    account_db_name_for, account_key_for, flag_text, hsl_color, number_text, read_flag, read_number,
    step_preview_font_size, window_blur_percent, window_opacity_percent,
};
use leaf::terminal::{contains_str, default_shell, pty_output_event, shell_args, windows_shell};

#[test]
fn client_id_sources() {
    assert_eq!(resolve_client_id(Some("a".to_string()), Some("b".to_string())), Ok("a".to_string()));
    assert_eq!(resolve_client_id(None, Some("b".to_string())), Ok("b".to_string()));
    assert_eq!(
        resolve_client_id(None, None),
        Err("LEAF_CLIENTID not set and no clientId provided".to_string())
    );
}

#[test]
fn authorization_address() {
    assert_eq!(
        google_auth_url("cid", "http://localhost:3456/auth/"),
        "https://accounts.google.com/o/oauth2/v2/auth?client_id=cid&redirect_uri=http%3A%2F%2Flocalhost%3A3456%2Fauth%2F&response_type=code&scope=openid%20email%20https://www.googleapis.com/auth/drive.file&access_type=offline&prompt=consent"
    );
    let u = google_auth_url("x", "a b*-._~é");
    assert!(u.contains("&redirect_uri=a+b*-._%7E%C3%A9&response_type"));
}

#[test]
fn redirect_yields_code_or_error() {
    assert_eq!(code_from_redirect(Some("http://localhost:3456/auth/?code=abc%2F1&scope=x".to_string())), Ok("abc/1".to_string()));
    assert_eq!(
        code_from_redirect(Some("http://localhost:3456/auth/?error=access_denied&code=x".to_string())),
        Err("OAuth Error: access_denied".to_string())
    );
    assert_eq!(
        code_from_redirect(Some("http://localhost:3456/auth/?state=1".to_string())),
        Err("URL parse error or closed".to_string())
    );
    assert_eq!(code_from_redirect(Some("not a url".to_string())), Err("URL parse error or closed".to_string()));
    assert_eq!(code_from_redirect(None), Err("URL parse error or closed".to_string()));
    let pairs = vec![("state".to_string(), "s".to_string()), ("code".to_string(), "c1".to_string())];
    assert_eq!(code_from_pairs(&pairs), Ok("c1".to_string()));
}

#[test]
fn backend_answers() {
    assert_eq!(refresh_outcome(true, Ok(Some("tok".to_string()))), Ok("tok".to_string()));
    assert_eq!(refresh_outcome(true, Ok(None)), Err("Failed to refresh token".to_string()));
    assert_eq!(refresh_outcome(false, Ok(Some("tok".to_string()))), Err("Failed to refresh token".to_string()));
    assert_eq!(refresh_outcome(true, Err("eof".to_string())), Err("JSON parse err: eof".to_string()));
    assert_eq!(exchange_outcome(true, Ok(Ok("{}".to_string())), ""), Ok("{}".to_string()));
    assert_eq!(exchange_outcome(true, Err("bad".to_string()), ""), Err("JSON parse err: bad".to_string()));
    assert_eq!(exchange_outcome(true, Ok(Err("io".to_string())), ""), Err("Serialize err: io".to_string()));
    assert_eq!(exchange_outcome(false, Ok(Ok("{}".to_string())), "denied"), Err("Token exchange failed: denied".to_string()));
    assert_eq!(request_failed("timeout"), "Request failed: timeout");
    assert_eq!(timed_out_message(), "Authentication timed out");
}

#[test]
fn terminal_output_in_base64() {
    let buf = b"hi!xyz";
    assert_eq!(pty_output_event(Some(3), buf).as_deref(), Some("aGkh"));
    assert_eq!(pty_output_event(Some(2), buf).as_deref(), Some("aGk="));
    assert_eq!(pty_output_event(Some(0), buf), None);
    assert_eq!(pty_output_event(None, buf), None);
}

#[test]
fn shells() {
    assert_eq!(default_shell(Some("/bin/zsh".to_string())), "/bin/zsh");
    assert_eq!(default_shell(None), "/bin/sh");
    assert_eq!(windows_shell(true), "wsl");
    assert_eq!(windows_shell(false), "powershell.exe");
    assert_eq!(shell_args("wsl", true), vec!["-e", "bash", "--login"]);
    assert_eq!(shell_args("C:\\Windows\\wsl.exe", true), vec!["-e", "bash", "--login"]);
    assert!(shell_args("wsl", false).is_empty());
    assert!(shell_args("powershell.exe", true).is_empty());
    assert!(contains_str("abc", ""));
    assert!(contains_str("abc", "bc"));
    assert!(!contains_str("abc", "abcd"));
}

#[test]
fn clock_values() {
    assert_eq!(epoch_millis_u64(Some(5)), 5);
    assert_eq!(epoch_millis_u64(Some(u64::MAX as u128 + 2)), 1);
    assert_eq!(epoch_millis_u64(None), 0);
    assert!(js_sys_date_now_approx() > 1_600_000_000_000);
    assert_eq!(local_page_label(42), "local-page-42");
}

#[test]
fn stored_settings() {
    assert!(read_flag(Some("true"), false));
    assert!(!read_flag(Some("TRUE"), true));
    assert!(read_flag(None, true));
    assert_eq!(flag_text(true), "true");
    assert_eq!(flag_text(false), "false");
    for b in [true, false] {
        assert_eq!(read_flag(Some(flag_text(b)), !b), b);
    }
    assert_eq!(read_number(Some("14"), 0), 14);
    assert_eq!(read_number(Some("x"), 100), 100);
    assert_eq!(read_number(None, 7), 7);
    assert_eq!(number_text(-3), "-3");
    for n in [0, 8, 72, -1, 100, i32::MIN] {
        assert_eq!(read_number(Some(&number_text(n)), 1), n);
    }
}

#[test]
fn setting_ranges() {
    assert_eq!(step_preview_font_size(72, 1), 72);
    assert_eq!(step_preview_font_size(8, -1), 8);
    assert_eq!(step_preview_font_size(14, 1), 15);
    assert_eq!(step_preview_font_size(100, -1), 72);
    assert_eq!(window_opacity_percent(30), 50);
    assert_eq!(window_opacity_percent(120), 100);
    assert_eq!(window_opacity_percent(75), 75);
    assert_eq!(window_blur_percent(-5), 0);
    assert_eq!(window_blur_percent(150), 100);
    assert_eq!(window_blur_percent(40), 40);
}

#[test]
fn per_account_names() {
    assert_eq!(account_key_for("leaf_vim_mode", Some("a@b.c")), "leaf_vim_mode_a@b.c");
    assert_eq!(account_key_for("leaf_vim_mode", Some("")), "leaf_vim_mode");
    assert_eq!(account_key_for("leaf_vim_mode", None), "leaf_vim_mode");
    assert_eq!(account_db_name_for(Some("x@y")), "LeafDB_x@y");
    assert_eq!(account_db_name_for(None), "LeafDB");
    assert_eq!(hsl_color(120, 45, 50), "hsl(120, 45%, 50%)");
}
