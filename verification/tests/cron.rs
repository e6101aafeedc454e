use cunzhi::checkpoint::CommandOutcome;
use cunzhi::cron::{cron_add_job, cron_list_jobs, cron_remove_job, CronListing};

fn exited(success: bool, stdout: &str, stderr: &str) -> CommandOutcome {
    CommandOutcome::Exited { success, stdout: stdout.to_string(), stderr: stderr.to_string() }
}

#[test]
fn jobs_are_listed_with_their_labels() {
    let listing = cron_list_jobs(&exited(
        true,
        "# comment\n0 * * * * echo hi # hourly\n\n  */5 * * * * run # a # b  \n",
        "",
    ))
    .unwrap();
    match listing {
        CronListing::Jobs(jobs) => {
            assert_eq!(jobs.len(), 2);
            assert_eq!(jobs[0].index, 0);
            assert_eq!(jobs[0].entry, "0 * * * * echo hi # hourly");
            assert_eq!(jobs[0].label, "hourly");
            assert_eq!(jobs[1].index, 1);
            assert_eq!(jobs[1].entry, "*/5 * * * * run # a # b");
            assert_eq!(jobs[1].label, "b");
        }
        CronListing::NoCrontab => panic!("expected jobs"),
    }
    assert!(matches!(
        cron_list_jobs(&exited(false, "", "crontab: no crontab for user")).unwrap(),
        CronListing::NoCrontab
    ));
    assert_eq!(
        cron_list_jobs(&CommandOutcome::SpawnFailed("not found".to_string())).unwrap_err(),
        "执行 crontab -l 失败: not found"
    );
}

#[test]
fn adding_a_job_replaces_its_label() {
    let existing = exited(true, "1 * * * * a # cunzhi\n\n2 * * * * b # other\n", "");
    let added = cron_add_job(Some("0 9 * * *"), Some("notify"), None, &existing).unwrap();
    assert_eq!(added.entry, "0 9 * * * notify # cunzhi");
    assert_eq!(added.crontab, "2 * * * * b # other\n0 9 * * * notify # cunzhi\n");
    assert_eq!(
        cron_add_job(None, Some("x"), None, &existing).unwrap_err(),
        "缺少 schedule 参数"
    );
    assert_eq!(
        cron_add_job(Some("* * * * *"), None, None, &existing).unwrap_err(),
        "缺少 command 参数"
    );
    let fresh = cron_add_job(Some("* * * * *"), Some("x"), Some("L"), &CommandOutcome::SpawnFailed("e".to_string())).unwrap();
    assert_eq!(fresh.crontab, "* * * * * x # L\n");
}

#[test]
fn removing_a_label_removes_its_jobs() {
    let existing = exited(true, "1 a # keep\n2 b # gone\n3 c # gone\n", "");
    let removed = cron_remove_job(Some("gone"), &existing).unwrap();
    assert_eq!(removed.removed, 2);
    assert_eq!(removed.crontab, "1 a # keep\n");
    let all = cron_remove_job(Some("keep"), &exited(true, "1 a # keep\n", "")).unwrap();
    assert_eq!(all.crontab, "");
    assert_eq!(
        cron_remove_job(Some("none"), &existing).unwrap_err(),
        "未找到标签为 'none' 的定时任务"
    );
    assert_eq!(cron_remove_job(None, &existing).unwrap_err(), "缺少 label 参数");
}

#[test]
fn an_added_job_is_removed_by_its_label() {
    let before = CommandOutcome::Exited {
        success: true,
        stdout: "0 1 * * * backup.sh # nightly\n0 6 * * * old.sh # alarm\n".to_string(),
        stderr: String::new(),
    };
    let added = cron_add_job(Some("30 7 * * *"), Some("say hi"), Some("alarm"), &before).unwrap();
    assert_eq!(added.crontab, "0 1 * * * backup.sh # nightly\n30 7 * * * say hi # alarm\n");
    let written = CommandOutcome::Exited {
        success: true,
        stdout: added.crontab.clone(),
        stderr: String::new(),
    };
    let removed = cron_remove_job(Some("alarm"), &written).unwrap();
    assert_eq!(removed.removed, 1);
    assert_eq!(removed.crontab, "0 1 * * * backup.sh # nightly\n");
}
