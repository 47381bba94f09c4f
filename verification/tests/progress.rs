use monotools::platform::usn::{drive_label, label_drive_letter, mount_point_letter};
use monotools::search_engine::progress::{
    apps_failed_message, apps_loaded_message, apps_progress_message, index_failed_message, phase_label,
    volume_progress_message,
};

fn utf16(s: &str) -> Vec<u16> {
    s.encode_utf16().collect()
}

#[test]
fn volume_progress_texts() {
    assert_eq!(volume_progress_message("Data (D:)", 2, 1500, 3), "正在索引 Data (D:)（2/3） — 已累计 1500 个文件");
    assert_eq!(volume_progress_message("C", 1, 0, 0), "正在索引 C");
}

#[test]
fn app_progress_texts() {
    assert_eq!(phase_label("desktop"), "桌面");
    assert_eq!(phase_label("registry"), "registry");
    assert_eq!(apps_progress_message(12, "common_start_menu"), "已加载 12 个应用（公共开始菜单）");
    assert_eq!(apps_loaded_message(40), "已加载 40 个应用");
    assert_eq!(apps_failed_message("x"), "应用列表加载失败: x");
    assert_eq!(index_failed_message("y"), "索引构建失败: y");
}

#[test]
fn drive_labels() {
    let mut name = utf16(" Data ");
    name.resize(256, 0);
    assert_eq!(drive_label('d', Some(&name)), "Data (D:)");
    let blank = vec![0u16; 256];
    assert_eq!(drive_label('e', Some(&blank)), "本地磁盘 (E:)");
    assert_eq!(drive_label('C', None), "本地磁盘 (C:)");
}

#[test]
fn mount_point_letters() {
    assert_eq!(mount_point_letter(Some(&utf16("e:\\"))), 'E');
    assert_eq!(mount_point_letter(Some(&utf16("\\mnt"))), 'C');
    assert_eq!(mount_point_letter(None), 'C');
}

#[test]
fn label_letters_fall_back_to_question_mark() {
    assert_eq!(label_drive_letter("\\\\.\\d:", None), 'D');
    assert_eq!(label_drive_letter("\\\\?\\Volume{1234}\\", Some(&utf16("f:\\"))), 'F');
    assert_eq!(label_drive_letter("garbage", None), '?');
    assert_eq!(label_drive_letter("\\\\.\\", None), '?');
    assert_eq!(drive_label(label_drive_letter("x", None), None), "本地磁盘 (?:)");
}
