use server_probe::config::{default_dir_segments, get_default_data, AppData, AppState, Platform};
use server_probe::servers::{count_players, describe_server, dir_exists, server_entry};

#[test]
fn default_data_points_at_the_local_server() {
    let data = get_default_data(String::from("/home/user/.minecraft/minecraft-servers"));
    assert_eq!(data.working_dir, "/home/user/.minecraft/minecraft-servers");
    assert_eq!(data.ping_address, "localhost");
    assert_eq!(data.ping_port, 25565);
}

#[test]
fn new_state_holds_nothing() {
    let state = AppState::new();
    assert!(state.data.is_none());
    assert!(state.current().is_none());
    assert!(state.ping_endpoint().is_none());
}

#[test]
fn stored_data_is_handed_back() {
    let mut state = AppState::new();
    state.store(AppData {
        working_dir: String::from("/srv"),
        ping_address: String::from("mc.example.org"),
        ping_port: 25570,
    });
    let held = state.current().unwrap();
    assert_eq!(held.working_dir, "/srv");
    assert_eq!(held.ping_address, "mc.example.org");
    assert_eq!(held.ping_port, 25570);
    assert_eq!(state.ping_endpoint(), Some((String::from("mc.example.org"), 25570)));
    let target = held.ping_target().unwrap();
    assert_eq!(target.address, "mc.example.org");
    assert_eq!(target.port, 25570);
}

#[test]
fn settings_without_address_have_no_target() {
    let data = AppData {
        working_dir: String::new(),
        ping_address: String::new(),
        ping_port: 25565,
    };
    assert!(data.ping_target().is_none());
}

#[test]
fn only_an_existing_directory_counts() {
    assert!(dir_exists(true, true));
    assert!(!dir_exists(true, false));
    assert!(!dir_exists(false, true));
    assert!(!dir_exists(false, false));
}

#[test]
fn server_entry_lists_vanilla() {
    let s = server_entry(
        String::from("survival"),
        String::from("/srv/survival"),
        String::from("2024-01-02T03:04:05+00:00"),
        3,
    );
    assert_eq!(s.name, "survival");
    assert_eq!(s.engine, "Vanilla");
    assert_eq!(s.version, "1.21.10");
    assert_eq!(s.location, "/srv/survival");
    assert_eq!(s.last_played, "2024-01-02T03:04:05+00:00");
    assert_eq!(s.players, 3);
}

#[test]
fn describe_server_formats_the_instant() {
    let s = describe_server(
        String::from("creative"),
        String::from("/srv/creative"),
        1431648000,
        0,
        2,
    )
    .unwrap();
    assert_eq!(s.last_played, "2015-05-15T00:00:00+00:00");
    assert_eq!(s.name, "creative");
    assert_eq!(s.location, "/srv/creative");
    assert_eq!(s.engine, "Vanilla");
    assert_eq!(s.version, "1.21.10");
    assert_eq!(s.players, 2);
    let t = describe_server(String::new(), String::new(), 0, 500_000_000, 0).unwrap();
    assert_eq!(t.last_played, "1970-01-01T00:00:00.500+00:00");
    let before = describe_server(String::new(), String::new(), -1, 0, 0).unwrap();
    assert_eq!(before.last_played, "1969-12-31T23:59:59+00:00");
}

#[test]
fn describe_server_refuses_an_instant_out_of_range() {
    assert!(describe_server(String::new(), String::new(), i64::MAX, 0, 0).is_none());
    assert!(describe_server(String::new(), String::new(), 0, 2_000_000_000, 0).is_none());
}

#[test]
fn players_are_the_dat_files() {
    let entries = vec![
        Some(String::from("dat")),
        None,
        Some(String::from("dat_old")),
        Some(String::from("DAT")),
        Some(String::from("dat")),
        Some(String::from("da")),
        Some(String::new()),
    ];
    assert_eq!(count_players(&entries), 2);
    assert_eq!(count_players(&[]), 0);
}

#[test]
fn default_directory_depends_on_the_platform() {
    assert_eq!(default_dir_segments(Platform::Windows), vec!["minecraft-servers"]);
    assert_eq!(
        default_dir_segments(Platform::MacOs),
        vec!["Library/Application Support", "minecraft-servers"]
    );
    assert_eq!(default_dir_segments(Platform::Unix), vec![".minecraft", "minecraft-servers"]);
}
