use css2mp4_core::error::Error;

#[test]
fn error_messages() {
    assert_eq!(Error::InputNotFound("a.html".to_string()).message(), "入力ファイルが見つかりません: a.html");
    assert_eq!(Error::ElementNotFound("#t".to_string()).message(), "要素が見つかりません: #t");
    assert_eq!(
        Error::UnknownOutputFormat("x.gif".to_string()).message(),
        "出力形式を拡張子から判別できません: x.gif"
    );
    assert_eq!(
        Error::BrowserLaunch("no chrome".to_string()).message(),
        "ヘッドレスChromiumの起動に失敗しました: no chrome"
    );
    assert_eq!(Error::Cdp("closed".to_string()).message(), "CDP通信でエラーが発生しました: closed");
    assert_eq!(
        Error::FfmpegSpawn("not found".to_string()).message(),
        "ffmpeg の起動に失敗しました。PATHにffmpegがあるか確認してください: not found"
    );
    assert_eq!(Error::Ffmpeg("bad".to_string()).message(), "FFmpegエラー: bad");
    assert_eq!(Error::FrameWrite("pipe".to_string()).message(), "フレームの書き込みに失敗しました: pipe");
    assert_eq!(Error::Json("eof".to_string()).message(), "JSONのシリアライズに失敗しました: eof");
    assert_eq!(Error::Io("denied".to_string()).message(), "IOエラー: denied");
}

#[test]
fn ffmpeg_exit_message_prints_code() {
    let e = Error::FfmpegExit { code: Some(1), stderr: "oops".to_string() };
    assert_eq!(e.message(), "ffmpeg がエラー終了しました (code=Some(1)):\noops");
    let e = Error::FfmpegExit { code: None, stderr: String::new() };
    assert_eq!(e.message(), "ffmpeg がエラー終了しました (code=None):\n");
    let e = Error::FfmpegExit { code: Some(i32::MIN), stderr: "x".to_string() };
    assert_eq!(e.message(), "ffmpeg がエラー終了しました (code=Some(-2147483648)):\nx");
}
