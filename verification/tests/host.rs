use radio_remote::install::find_steam_game_path;
use radio_remote::install::get_plugin_path;
use radio_remote::install::parse_vdf_library_line;
use radio_remote::install::steam_common_path;
use radio_remote::overlay::send_overlay_command;
use radio_remote::overlay::ws_payload_len;

#[test]
fn overlay_frame_carries_the_masked_command() {
    let command = "{\"command\":\"hide\"}";
    let frame = send_overlay_command(command).expect("short payload");
    assert_eq!(frame[0], 0x81, "FIN + text opcode");
    assert_eq!(frame[1] & 0x80, 0x80, "client frames are masked");
    let len = ws_payload_len(frame[1]) as usize;
    assert_eq!(len, command.len());
    let mask = &frame[2..6];
    let payload: Vec<u8> = frame[6..]
        .iter()
        .enumerate()
        .map(|(i, b)| b ^ mask[i % 4])
        .collect();
    assert_eq!(payload, command.as_bytes(), "unmasking restores the command");
}

#[test]
fn overlay_frame_uses_extended_length_for_big_payloads() {
    let command = "x".repeat(300);
    let frame = send_overlay_command(&command).expect("medium payload");
    assert_eq!(frame[1], 0x80 | 126);
    assert_eq!(((frame[2] as usize) << 8) | frame[3] as usize, 300);
    assert_eq!(frame.len(), 4 + 4 + 300);
}

#[test]
fn oversized_overlay_payload_is_refused() {
    let command = "y".repeat(70_000);
    assert_eq!(send_overlay_command(&command).unwrap_err(), "Payload too large");
}

#[test]
fn plugin_path_is_under_the_game_binaries() {
    assert_eq!(
        get_plugin_path("C:\\Games\\ETS2"),
        "C:\\Games\\ETS2\\bin\\win_x64\\plugins\\local-radio.dll"
    );
}

#[test]
fn steam_common_path_joins_the_library_root() {
    assert_eq!(
        steam_common_path("D:\\SteamLibrary", "Euro Truck Simulator 2"),
        "D:\\SteamLibrary\\steamapps\\common\\Euro Truck Simulator 2"
    );
}

#[test]
fn vdf_path_lines_yield_their_library_root() {
    assert_eq!(
        parse_vdf_library_line("\t\t\"path\"\t\t\"D:\\\\SteamLibrary\"").as_deref(),
        Some("D:\\\\SteamLibrary")
    );
    assert_eq!(parse_vdf_library_line("\t\t\"apps\"\t\t\"227300\""), None);
    assert_eq!(parse_vdf_library_line("\"path\""), None, "fewer than four quotes");
    assert_eq!(parse_vdf_library_line(""), None);
}

#[test]
fn first_present_candidate_wins() {
    let candidates = vec![
        "C:\\Program Files (x86)\\Steam\\steamapps\\common\\ETS2".to_string(),
        "D:\\Steam\\steamapps\\common\\ETS2".to_string(),
        "E:\\Steam\\steamapps\\common\\ETS2".to_string(),
    ];
    let present = vec![false, true, true];
    assert_eq!(
        find_steam_game_path(&candidates, &present).as_deref(),
        Some("D:\\Steam\\steamapps\\common\\ETS2")
    );
    assert_eq!(find_steam_game_path(&candidates, &vec![false, false, false]), None);
    assert_eq!(find_steam_game_path(&Vec::new(), &Vec::new()), None);
}
