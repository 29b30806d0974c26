use mooncell::errors::TopError;
use mooncell::filemanage::FileManage;
use mooncell::info::Info;

#[test]
fn every_failure_kind_has_its_message() {
    assert_eq!(TopError::EmptyError.to_string(), "data lost");
    assert_eq!(TopError::NotFindError.to_string(), "not find");
    assert_eq!(TopError::OpenError.to_string(), "can`t open");
    assert_eq!(TopError::ParseError.to_string(), "can`t parse");
    assert_eq!(TopError::ReadError.to_string(), "can`t read file");
    assert_eq!(TopError::MissingDependentData.to_string(), "Missing dependent data");
    assert_eq!(
        TopError::ErrorInformation(String::from("boom")).to_string(),
        "boom"
    );
}

#[test]
fn duplicate_copies_the_kind_and_message() {
    let e = TopError::ErrorInformation(String::from("boom"));
    assert_eq!(e.duplicate(), e);
    assert_eq!(TopError::ReadError.duplicate(), TopError::ReadError);
}

#[test]
fn degraded_state_records_each_failure_kind() {
    let mut fm = FileManage::new();
    assert_eq!(
        fm.refresh_file_list(Err(TopError::ReadError)),
        Some(TopError::ReadError)
    );
    assert!(fm.get_file_list().is_none());
    assert_eq!(
        fm.refresh_file_list(Err(TopError::OpenError)),
        Some(TopError::OpenError)
    );
    assert!(fm.get_file_list().is_none());
    // the path pointer is retained while degraded
    assert_eq!(fm.get_path_str(), "/");
}

#[test]
fn date_refresh_renders_the_clock() {
    let mut info = Info::new();
    info.refresh_date();
    let d: Vec<char> = info.date.chars().collect();
    // YYYY-MM-DD HH:MM for present-day years
    assert_eq!(d.len(), 16);
    assert_eq!(d[4], '-');
    assert_eq!(d[7], '-');
    assert_eq!(d[10], ' ');
    assert_eq!(d[13], ':');
    for i in [0, 1, 2, 3, 5, 6, 8, 9, 11, 12, 14, 15] {
        assert!(d[i].is_ascii_digit());
    }
    let month: u32 = info.date[5..7].parse().unwrap();
    assert!((1..=12).contains(&month));
    let day: u32 = info.date[8..10].parse().unwrap();
    assert!((1..=31).contains(&day));
    let hour: u32 = info.date[11..13].parse().unwrap();
    assert!(hour <= 23);
    let minute: u32 = info.date[14..16].parse().unwrap();
    assert!(minute <= 59);
}
