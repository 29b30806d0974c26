use mooncell::filemanage::{FileOperation, FileType, FileUnit};
use mooncell::info::CounterSnapshot;
use mooncell::telemetry::{CoreTicks, MemCounters};
use mooncell::mooncell::{
    deal_cpu_usage, file_list_next_index, file_list_previous_index, EnterOutcome, Mooncell,
};

fn unit(name: &str, kind: FileType, path: &str) -> FileUnit {
    FileUnit {
        name: String::from(name),
        file_type: kind,
        occupy: 0,
        path: String::from(path),
    }
}

#[test]
fn session_runs_until_exit() {
    let mut m = Mooncell::new();
    assert!(m.is_run());
    m.exit();
    assert!(!m.is_run());
}

#[test]
fn exit_command_ends_the_session() {
    let mut m = Mooncell::new();
    m.command_deal(String::from("ls"));
    assert!(m.is_run());
    m.command_deal(String::from("exit"));
    assert!(!m.is_run());
}

#[test]
fn enter_folder_reports_each_outcome() {
    let mut m = Mooncell::new();
    let plain = unit("a.txt", FileType::Document, "/a.txt");
    assert_eq!(m.enter_folder(&plain, true), EnterOutcome::NotFolder);
    assert_eq!(m.get_now_path(), "/");
    let folder = unit("home", FileType::Folder, "/home");
    assert_eq!(m.enter_folder(&folder, true), EnterOutcome::Entered);
    assert_eq!(m.get_now_path(), "/home");
    // a folder whose target is missing reports the failure, pointer kept
    let gone = unit("gone", FileType::Folder, "/home/gone");
    assert_eq!(m.enter_folder(&gone, false), EnterOutcome::TargetMissing);
    assert_eq!(m.get_now_path(), "/home");
}

#[test]
fn commit_and_perform_hand_out_the_frozen_operation() {
    let mut m = Mooncell::new();
    m.file_manage.select_push(unit("a", FileType::Normal, "/a"));
    m.fm_copy_ready();
    let pending = m.fm_perform_operations().unwrap();
    assert!(matches!(pending.kind, FileOperation::Copy));
    assert_eq!(pending.entries.len(), 1);
    // cleared afterwards
    assert!(m.fm_perform_operations().is_err());
}

#[test]
fn move_and_delete_commits_set_their_kind() {
    let mut m = Mooncell::new();
    m.file_manage.select_push(unit("a", FileType::Normal, "/a"));
    m.fm_move_ready();
    assert!(matches!(m.file_manage.file_operation, FileOperation::Move));
    m.file_manage.select_push(unit("b", FileType::Normal, "/b"));
    m.fm_del_ready();
    assert!(matches!(m.file_manage.file_operation, FileOperation::Delete));
}

#[test]
fn selection_text_lists_names() {
    let mut m = Mooncell::new();
    m.file_manage.select_push(unit("a", FileType::Normal, "/a"));
    m.file_manage.select_push(unit("b", FileType::Normal, "/b"));
    assert_eq!(m.create_select_str(), "\na\nb");
    m.clear_select();
    assert_eq!(m.create_select_str(), "");
}

#[test]
fn file_kind_labels() {
    assert_eq!(Mooncell::filetype_to_string(&FileType::Zip), "Zip File");
    assert_eq!(Mooncell::filetype_to_string(&FileType::Normal), "File");
    assert_eq!(Mooncell::filetype_to_string(&FileType::Folder), "Folder");
    assert_eq!(Mooncell::filetype_to_string(&FileType::Video), "Video File");
    assert_eq!(Mooncell::filetype_to_string(&FileType::Audio), "Audio File");
    assert_eq!(Mooncell::filetype_to_string(&FileType::Image), "Image File");
    assert_eq!(Mooncell::filetype_to_string(&FileType::Code), "Code source");
    assert_eq!(Mooncell::filetype_to_string(&FileType::Markdown), "Markdown");
    assert_eq!(Mooncell::filetype_to_string(&FileType::Document), "Document File");
}

#[test]
fn version_text() {
    assert_eq!(Mooncell::get_version(), "text-v_0.3.1");
}

#[test]
fn core_usage_text_empty_and_failed() {
    assert_eq!(deal_cpu_usage(&Vec::new()), "data is empty");
    assert_eq!(deal_cpu_usage(&vec![Some(5000), None]), "Data Error");
}

#[test]
fn core_usage_text_layout() {
    // index 0 is the aggregate and is skipped; two cores follow
    let data = vec![Some(5000), Some(1234), Some(987)];
    assert_eq!(deal_cpu_usage(&data), "cpu0  : 12.34    cpu1  :  9.87\n");
}

#[test]
fn list_cursor_wraps() {
    assert_eq!(file_list_next_index(None, 5), 0);
    assert_eq!(file_list_next_index(Some(2), 5), 3);
    assert_eq!(file_list_next_index(Some(4), 5), 0);
    assert_eq!(file_list_previous_index(None, 5), 0);
    assert_eq!(file_list_previous_index(Some(3), 5), 2);
    assert_eq!(file_list_previous_index(Some(0), 5), 5);
    assert_eq!(file_list_previous_index(Some(9), 5), 0);
}

#[test]
fn accessors_reflect_the_last_tick() {
    let mut m = Mooncell::new();
    let a = CoreTicks { user: 100, nice: 0, system: 0, idle: 900, iowait: 0, irq: 0, softirq: 0, steal: 0 };
    let b = CoreTicks { user: 150, nice: 0, system: 0, idle: 950, iowait: 50, irq: 0, softirq: 0, steal: 0 };
    let snap = |cores: Vec<CoreTicks>| CounterSnapshot {
        cpu: Some(cores),
        memory: Some(MemCounters { total: 100, free: 25, buffers: 0, cache: 0 }),
        disks: Vec::new(),
        temp_millic: Some(47000),
        power_milliwatt: None,
    };
    let _ = m.info.tick(snap(vec![a]));
    let _ = m.info.tick(snap(vec![b]));
    assert_eq!(m.get_cpu_usage(), vec![Some(3333), Some(3333)]);
    assert_eq!(m.get_cpu_usage_history(), vec![3333]);
    assert_eq!(m.get_mem_usage_history(), vec![7500, 7500]);
    assert_eq!(m.get_mem_total(), 100);
    assert_eq!(m.get_mem_usage(), 75);
    assert_eq!(m.get_cpu_temp(), Some(47000));
    assert_eq!(m.get_cpu_power(), None);
    assert_eq!(m.get_disks().len(), 0);
}
