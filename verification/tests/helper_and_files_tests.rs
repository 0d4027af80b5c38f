use wenmeng::{FileServer, HttpHelper, Initiator, ProtError, RecvResponse, RecvStream};
use wenmeng::bytesearch::bytes_contains;
use wenmeng::file_server::{default_index, default_mimetype, default_precompressed,
    default_status};

#[test]
fn bytes_contains_finds_runs() {
    assert!(bytes_contains(b"gzip, deflate, br", b"deflate"));
    assert!(bytes_contains(b"abc", b""));
    assert!(!bytes_contains(b"abc", b"abcd"));
    assert!(!bytes_contains(b"gzip", b"br"));
    assert!(bytes_contains(b"aab", b"ab"));
}

#[test]
fn encoding_flags_follow_accept_encoding() {
    let accept = Some(b"gzip, deflate, br".to_vec());
    assert_eq!(HttpHelper::encoding_flags(&accept), (true, true, true));
    let gz_only = Some(b"gzip".to_vec());
    assert_eq!(HttpHelper::encoding_flags(&gz_only), (true, false, false));
    assert_eq!(HttpHelper::encoding_flags(&None), (false, false, false));
}

#[test]
fn finish_response_passes_success_through() {
    let res = RecvResponse {
        status: 204,
        headers: Vec::new(),
        is_chunked: false,
        body: RecvStream::empty(),
    };
    let out = HttpHelper::finish_response(Ok(res));
    assert_eq!(out.status, 204);
}

#[test]
fn finish_response_swallows_operator_errors() {
    let fail: Result<RecvResponse, ProtError> =
        Err(ProtError::Extension("boom".to_string()));
    let mut out = HttpHelper::finish_response(fail);
    assert_eq!(out.status, 500);
    assert!(out.body.is_end());
    assert_eq!(out.body.read_now(), b"server inner error".to_vec());
}

#[test]
fn library_go_away_is_tagged() {
    match ProtError::library_go_away(2) {
        ProtError::GoAway(debug, code, who) => {
            assert!(debug.is_empty());
            assert_eq!(code, 2);
            assert_eq!(who, Initiator::Library);
        },
        _ => panic!("expected a GoAway"),
    }
}

#[test]
fn file_server_defaults() {
    assert_eq!(default_mimetype(), "application/octet-stream".to_string());
    assert_eq!(default_status(), 404);
    assert_eq!(default_index(), vec!["index.html".to_string(), "index.htm".to_string()]);
    assert_eq!(default_precompressed(), vec!["gzip".to_string(), "br".to_string()]);
}

#[test]
fn new_file_server_strips_trailing_slash() {
    let fs = FileServer::new("/srv".to_string(), "/static/".to_string());
    assert_eq!(fs.prefix, "/static".to_string());
    assert_eq!(fs.root, Some("/srv".to_string()));
    assert!(fs.browse);
    let fs2 = FileServer::new("".to_string(), "/a".to_string());
    assert_eq!(fs2.root, None);
    assert_eq!(fs2.prefix, "/a".to_string());
}

#[test]
fn set_prefix_strips_again() {
    let mut fs = FileServer::new("/srv".to_string(), "/a".to_string());
    fs.set_prefix("/files/".to_string());
    assert_eq!(fs.prefix, "/files".to_string());
    fs.set_browse(false);
    assert!(!fs.browse);
    fs.set_disable_compress(true);
    assert!(fs.disable_compress);
}

#[test]
fn hidden_paths_are_spotted() {
    let mut fs = FileServer::new("/srv".to_string(), "/a".to_string());
    fs.hide.push(".git".to_string());
    fs.hide.push("secret".to_string());
    assert!(fs.is_hide_path(&"/srv/.git/config".to_string()));
    assert!(fs.is_hide_path(&"/srv/my-secret-file".to_string()));
    assert!(!fs.is_hide_path(&"/srv/public/index.html".to_string()));
}

#[test]
fn href_for_requires_the_prefix() {
    let fs = FileServer::new("/srv".to_string(), "/static".to_string());
    assert_eq!(fs.href_for(&"/static/css/app.css".to_string()),
        Some("//css/app.css".to_string()));
    assert_eq!(fs.href_for(&"/other/file".to_string()), None);
}
