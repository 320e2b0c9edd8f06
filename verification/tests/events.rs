use hdc_deploy::events::{
    classify, exit_code_of, show, DeviceStatus, ProcessEvent, NOTHING_INSTALLED, NOT_TERMINATED,
};
use hdc_deploy::failure::{headline_text, DeployError, Failure};
use hdc_deploy::lines::line_text;

#[test]
fn standard_output_is_shown_as_it_is() {
    let event = ProcessEvent::StdoutLine("192.168.0.2:5555\n".to_string());
    assert_eq!(show(&event), Some("192.168.0.2:5555\n".to_string()));
}

#[test]
fn standard_error_is_shown_behind_the_error_prefix() {
    let event = ProcessEvent::StderrLine("device offline\n".to_string());
    assert_eq!(show(&event), Some("[错误] device offline\n".to_string()));
}

#[test]
fn a_stream_error_is_shown_as_a_line_of_its_own() {
    let event = ProcessEvent::SpawnError("broken pipe".to_string());
    assert_eq!(show(&event), Some("执行命令时出错: broken pipe\n".to_string()));
}

#[test]
fn the_end_of_the_process_is_not_shown() {
    assert_eq!(show(&ProcessEvent::Terminated(Some(0))), None);
    assert_eq!(show(&ProcessEvent::Terminated(None)), None);
}

#[test]
fn a_process_that_ended_without_a_code_counts_as_zero() {
    assert_eq!(exit_code_of(None), 0);
    assert_eq!(exit_code_of(Some(0)), 0);
    assert_eq!(exit_code_of(Some(7)), 7);
    assert_eq!(exit_code_of(Some(-3)), -3);
}

#[test]
fn the_fixed_exit_codes() {
    assert_eq!(NOT_TERMINATED, -1);
    assert_eq!(NOTHING_INSTALLED, 1);
}

#[test]
fn the_empty_marker_means_no_device() {
    assert_eq!(classify("[Empty]\n"), DeviceStatus::NoDevice);
    assert_eq!(classify("List of targets:\n[Empty]"), DeviceStatus::NoDevice);
}

#[test]
fn an_error_line_means_no_device() {
    assert_eq!(classify("[错误] cannot connect\n"), DeviceStatus::NoDevice);
    assert_eq!(classify("192.168.0.2:5555\n[错误] warning\n"), DeviceStatus::NoDevice);
}

#[test]
fn any_other_output_means_devices() {
    assert_eq!(classify("192.168.0.2:5555\n"), DeviceStatus::HasDevices);
    assert_eq!(classify(""), DeviceStatus::HasDevices);
    assert_eq!(classify("[empty]\n"), DeviceStatus::HasDevices);
    assert_eq!(classify("[Empty\n"), DeviceStatus::HasDevices);
}

#[test]
fn a_line_is_heading_subject_and_line_end() {
    assert_eq!(line_text("找到本地缓存文件: ", "/tmp/app.hap"), "找到本地缓存文件: /tmp/app.hap\n");
    assert_eq!(line_text("", ""), "\n");
}

#[test]
fn every_kind_of_failure_has_its_own_headline() {
    let kinds = [
        (Failure::Spawn, "启动命令失败: "),
        (Failure::HttpClient, "创建HTTP客户端失败: "),
        (Failure::Request, "下载文件失败: "),
        (Failure::Body, "读取文件内容失败: "),
        (Failure::Save, "保存文件失败: "),
        (Failure::CreateRoot, "创建解压目录失败: "),
        (Failure::OpenArchive, "打开ZIP文件失败: "),
        (Failure::ReadArchive, "读取ZIP文件失败: "),
        (Failure::ReadEntry, "访问ZIP文件内容失败: "),
        (Failure::Traversal, "ZIP文件包含不安全的路径: "),
        (Failure::CreateDir, "创建目录失败: "),
        (Failure::CreateParent, "创建父目录失败: "),
        (Failure::CreateFile, "创建文件失败: "),
        (Failure::WriteFile, "写入文件失败: "),
        (Failure::Walk, "遍历目录失败: "),
    ];
    for (kind, headline) in kinds.iter() {
        assert_eq!(headline_text(*kind), *headline);
    }
    for (i, a) in kinds.iter().enumerate() {
        for (j, b) in kinds.iter().enumerate() {
            assert_eq!(a.1 == b.1, i == j);
        }
    }
}

#[test]
fn the_message_of_an_error_is_headline_and_detail() {
    let error = DeployError::new(Failure::Request, "connection refused".to_string());
    assert_eq!(error.message(), "下载文件失败: connection refused");
    let error = DeployError::new(Failure::Save, String::new());
    assert_eq!(error.message(), "保存文件失败: ");
}

#[test]
fn a_copy_of_an_error_equals_it() {
    let error = DeployError::new(Failure::Walk, "permission denied".to_string());
    let copy = error.duplicate();
    assert_eq!(copy, error);
    assert_eq!(copy.kind, Failure::Walk);
    assert_eq!(copy.detail, "permission denied");
}
