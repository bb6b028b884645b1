use dsh_desktop::controls::{apply_download_action, DownloadEffect, DownloadKind, DownloadRequest};
use dsh_desktop::downloads::{canceled_error, TransferStep, completed, parse_content_length, plan_response, resume_headers, DownloadTask, Downloads, Outcome};
use dsh_desktop::filenames::{download_name, first_free, sanitize, unique_path};

fn task(id: u64, url: &str, file: &str, state: &str) -> DownloadTask {
    let mut t = DownloadTask::default();
    t.id = id;
    t.name = "n".to_string();
    t.url = url.to_string();
    t.file = file.to_string();
    t.state = state.to_string();
    t.speed = 9;
    t
}

/// A folder where nothing is on disk.
fn empty_dir(name: &str) -> String {
    format!("/nonexistent-dsh-desktop/{}/", name)
}

#[test]
fn restart_restores_unfinished_tasks() {
    let saved = vec![
        task(3, "u3", "f3", "downloading"),
        task(7, "u7", "f7", "paused"),
        task(2, "u2", "f2", "done"),
    ];
    let d = Downloads::new(saved, vec![100, 0, 5]);
    let l = d.snapshot();
    assert_eq!(l[0].state, "paused");
    assert_eq!(l[0].bytes, 100);
    assert_eq!(l[1].state, "error");
    assert_eq!(l[1].error.as_deref(), Some("程序重启，下载中断"));
    assert_eq!(l[2].state, "done");
    assert!(l.iter().all(|t| t.speed == 0));
    assert_eq!(d.next_id(), 8);
    assert!(d.has_active());
}

#[test]
fn offer_with_ask_waits_for_the_folder() {
    let mut d = Downloads::new(vec![], vec![]);
    assert!(d.offer("http://x/a.zip", "a.zip", "", true));
    assert_eq!(d.pending_name(), Some("a.zip".to_string()));
    assert_eq!(d.take_pending(), Some(("http://x/a.zip".to_string(), "a.zip".to_string())));
    assert_eq!(d.take_pending(), None);
    assert!(d.snapshot().is_empty());
}

#[test]
fn start_registers_and_refuses_duplicates() {
    let dir = empty_dir("dsh_desktop_dl_start");
    let mut d = Downloads::new(vec![], vec![]);
    let id = d.start("http://x/a.zip", "a.zip", &dir).unwrap();
    assert_eq!(id, 1);
    let t = &d.snapshot()[0];
    assert_eq!(t.name, "a.zip");
    assert_eq!(t.file, format!("{}a.zip", dir));
    assert_eq!(t.state, "downloading");
    assert!(d.find_dup("http://x/a.zip"));
    assert_eq!(d.start("http://x/a.zip", "a.zip", &dir), None);
    assert!(!d.offer("http://x/a.zip", "a.zip", &dir, true));
}

#[test]
fn cancel_then_stop_is_canceled() {
    let dir = empty_dir("dsh_desktop_dl_cancel");
    let mut d = Downloads::new(vec![], vec![]);
    let id = d.start("http://x/b.bin", "b.bin", &dir).unwrap();
    assert!(d.cancel(id));
    assert!(d.is_canceled(id));
    assert_eq!(d.finish(id, Outcome::Failed("已取消".to_string())), None);
    assert_eq!(d.snapshot()[0].state, "canceled");
    assert!(!d.has_worker(id));
    assert!(!d.cancel(id));
}

#[test]
fn pause_resume_retry_complete() {
    let dir = empty_dir("dsh_desktop_dl_retry");
    let mut d = Downloads::new(vec![], vec![]);
    let id = d.start("http://x/c.bin", "c.bin", &dir).unwrap();
    assert!(d.pause(id, true));
    assert_eq!(d.snapshot()[0].state, "paused");
    assert!(d.pause(id, false));
    assert_eq!(d.snapshot()[0].state, "downloading");
    assert_eq!(d.finish(id, Outcome::Failed("读取失败".to_string())), None);
    assert_eq!(d.snapshot()[0].state, "error");
    assert!(d.retry(id));
    assert_eq!(d.snapshot().len(), 1);
    assert!(!d.retry(id));
    assert_eq!(d.finish(id, completed(10, None)), Some("c.bin".to_string()));
    let t = &d.snapshot()[0];
    assert_eq!(t.state, "done");
    assert_eq!(t.total, Some(10));
}

#[test]
fn pause_all_and_remove() {
    let saved = vec![task(1, "u1", "f1", "done")];
    let mut d = Downloads::new(saved, vec![0]);
    let dir = empty_dir("dsh_desktop_dl_pause_all");
    let a = d.start("http://x/1", "1", &dir).unwrap();
    let b = d.start("http://x/2", "2", &dir).unwrap();
    assert_eq!(d.pause_all(), 2);
    assert!(d.is_paused(a) && d.is_paused(b));
    assert!(d.remove(a));
    assert!(!d.remove(a));
    assert_eq!(d.file_of(a), None);
    assert_eq!(d.delete(1), Some(("f1".to_string(), false)));
    assert_eq!(d.url_of(b), Some("http://x/2".to_string()));
}

#[test]
fn panel_actions() {
    let dir = empty_dir("dsh_desktop_dl_actions");
    let mut d = Downloads::new(vec![task(1, "u1", "f1", "error")], vec![0]);
    let r = apply_download_action(&mut d, DownloadRequest { kind: DownloadKind::OpenFile, id: 1 }, &dir);
    assert!(matches!(r, DownloadEffect::OpenFile(f) if f == "f1"));
    let r = apply_download_action(&mut d, DownloadRequest { kind: DownloadKind::CopyUrl, id: 9 }, &dir);
    assert!(matches!(r, DownloadEffect::Reply(false)));
    let r = apply_download_action(&mut d, DownloadRequest { kind: DownloadKind::Retry, id: 1 }, &dir);
    assert!(matches!(r, DownloadEffect::Spawn(1, false)));
    let r = apply_download_action(&mut d, DownloadRequest { kind: DownloadKind::AskConfirm(String::new()), id: 0 }, &dir);
    assert!(matches!(r, DownloadEffect::Reply(false)));
    assert!(d.offer("http://x/z.zip", "z.zip", "", true));
    let r = apply_download_action(
        &mut d,
        DownloadRequest { kind: DownloadKind::AskConfirm("+".to_string()), id: 0 },
        &dir,
    );
    assert!(matches!(r, DownloadEffect::Spawn(2, false)));
    assert!(d.snapshot()[0].file.starts_with(&dir));
    let r = apply_download_action(&mut d, DownloadRequest { kind: DownloadKind::Delete, id: 2 }, &dir);
    assert!(matches!(r, DownloadEffect::Reply(true)));
    let r = apply_download_action(&mut d, DownloadRequest { kind: DownloadKind::Pause(false), id: 1 }, &dir);
    assert!(matches!(r, DownloadEffect::Reply(true)));
}

#[test]
fn resuming_a_transfer() {
    assert!(resume_headers(0, &Some("e".to_string())).is_empty());
    assert_eq!(
        resume_headers(1024, &Some("\"v1\"".to_string())),
        vec![("Range".to_string(), "bytes=1024-".to_string()), ("If-Range".to_string(), "\"v1\"".to_string())]
    );
    assert_eq!(resume_headers(5, &None), vec![("Range".to_string(), "bytes=5-".to_string())]);
    assert_eq!(parse_content_length(&Some(" 42 ".to_string())), Some(42));
    assert_eq!(parse_content_length(&Some("x".to_string())), None);
    // The rest was sent: append, total is what was there plus the rest.
    let p = plan_response(100, 206, &Some("50".to_string()), &Some("e1".to_string()), &None, None, &None);
    assert!(p.append);
    assert_eq!(p.bytes, 100);
    assert_eq!(p.total, Some(150));
    assert_eq!(p.version, Some("e1".to_string()));
    // The whole resource came back: start over.
    let p = plan_response(100, 200, &Some("80".to_string()), &None, &Some("lm".to_string()), None, &Some("old".to_string()));
    assert!(!p.append);
    assert_eq!(p.bytes, 0);
    assert_eq!(p.total, Some(80));
    assert_eq!(p.version, Some("old".to_string()));
    assert!(matches!(completed(7, Some(9)), Outcome::Completed(7, 9)));
}

#[test]
fn file_names() {
    assert_eq!(sanitize("a<b>:c.zip"), "a_b__c.zip");
    assert_eq!(sanitize("  ..  "), "dsh-export.zip");
    assert_eq!(sanitize("con.txt"), "_con.txt");
    assert_eq!(sanitize("report. . "), "report");
    // An extension that alone reaches the limit: the whole name is cut.
    let long_ext = "a.".to_string() + &"x".repeat(200);
    assert_eq!(sanitize(&long_ext).chars().count(), 120);
    // A cut that ends in a space is tidied again.
    let y = "y".repeat(119);
    assert_eq!(sanitize(&(y.clone() + " " + &"z".repeat(20))), y);
    let long = "x".repeat(200) + ".zip";
    let s = sanitize(&long);
    assert_eq!(s.chars().count(), 120);
    assert!(s.ends_with(".zip"));
    // `/tmp` is taken, so the next free numbered name is chosen.
    assert_eq!(unique_path("/", "tmp"), ("/tmp (1)".to_string(), "tmp (1)".to_string()));
    let dir = empty_dir("unique");
    assert_eq!(unique_path(&dir, "g.zip"), (format!("{}g.zip", dir), "g.zip".to_string()));
}

#[test]
fn intercepted_downloads_are_named() {
    let s = |x: &str| Some(x.to_string());
    assert_eq!(download_name(s("report.pdf"), s("ignored.bin")), "report.pdf");
    assert_eq!(download_name(s(""), s("data.csv")), "data.csv");
    assert_eq!(download_name(None, s("data.csv")), "data.csv");
    assert_eq!(download_name(None, s("session.export")), "dsh-export.zip");
    assert_eq!(download_name(s(""), s("")), "dsh-export.zip");
    assert_eq!(download_name(None, None), "dsh-export.zip");
}

fn chars(s: &str) -> Vec<char> {
    s.chars().collect()
}

#[test]
fn first_free_candidate() {
    let n = chars("a.zip");
    assert_eq!(first_free(&n, &vec![false]), chars("a.zip"));
    assert_eq!(first_free(&n, &vec![true, true, false]), chars("a (2).zip"));
    assert_eq!(first_free(&n, &vec![true]), chars("a.zip"));
    assert_eq!(first_free(&chars(".bashrc"), &vec![true, false]), chars(".bashrc (1)"));
}

#[test]
fn deleting_a_paused_task_with_no_transfer() {
    // Restored after a restart, the paused task has no running transfer, so the
    // caller is handed its file to delete.
    let dir = empty_dir("dl_delete_paused");
    let mut d = Downloads::new(vec![task(5, "u5", "f5", "paused")], vec![3]);
    let r = apply_download_action(&mut d, DownloadRequest { kind: DownloadKind::Delete, id: 5 }, &dir);
    assert!(matches!(r, DownloadEffect::RemoveFile(f) if f == "f5"));
    assert_eq!(d.file_of(5), None);
}

#[test]
fn the_list_stays_newest_first() {
    let dir = empty_dir("dl_newest_first");
    let mut d = Downloads::new(vec![task(3, "u3", "f3", "done")], vec![0]);
    let a = d.start("http://x/a", "a", &dir).unwrap();
    let b = d.start("http://x/b", "b", &dir).unwrap();
    assert!(d.remove(a));
    let c = d.start("http://x/c", "c", &dir).unwrap();
    let ids: Vec<u64> = d.list().iter().map(|t| t.id).collect();
    assert_eq!(ids, vec![c, b, 3]);
    assert!(c > b && b > 3);
}

#[test]
fn what_a_transfer_does_next() {
    let dir = empty_dir("dl_transfer_step");
    let mut d = Downloads::new(vec![], vec![]);
    let a = d.start("http://x/a", "a", &dir).unwrap();
    assert_eq!(d.transfer_step(a), TransferStep::Go);
    assert!(d.pause(a, true));
    assert_eq!(d.transfer_step(a), TransferStep::Hold);
    assert!(d.cancel(a));
    assert_eq!(d.transfer_step(a), TransferStep::Cancel);
    assert_eq!(d.transfer_step(99), TransferStep::Go);
    assert_eq!(canceled_error(), "已取消");
}
