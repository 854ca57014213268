use mcscan::config::DiscordConfig;
use mcscan::discord::{
    extract_server_info, get_color_for_server, get_webhook_for_server, MinecraftServer,
};
use mcscan::scanner::format_found_message;

fn sample_config() -> DiscordConfig {
    DiscordConfig {
        webhook_121_active: String::from("hook-121-active"),
        webhook_120_active: String::from("hook-120-active"),
        webhook_119_active: String::from("hook-119-active"),
        webhook_other_active: String::from("hook-other-active"),
        webhook_121_empty: String::from("hook-121-empty"),
        webhook_120_empty: String::from("hook-120-empty"),
        webhook_119_empty: String::from("hook-119-empty"),
        webhook_other_empty: String::from("hook-other-empty"),
    }
}

fn server_with(version: &str, online: u32) -> MinecraftServer {
    MinecraftServer {
        ip: String::from("1.2.3.4"),
        port: 25565,
        players_online: online,
        players_max: 20,
        version: String::from(version),
        description: String::from("d"),
        country: None,
    }
}

#[test]
fn extract_parses_a_plain_discovery_message() {
    let server =
        extract_server_info("[FOUND] 1.2.3.4:25565 - 5/20 - 1.21.4 - A cool server").unwrap();
    assert_eq!(server.ip, "1.2.3.4");
    assert_eq!(server.port, 25565);
    assert_eq!(server.players_online, 5);
    assert_eq!(server.players_max, 20);
    assert_eq!(server.version, "1.21.4");
    assert_eq!(server.description, "A cool server");
    assert!(server.country.is_none());
}

#[test]
fn extract_keeps_separators_inside_the_description() {
    let server =
        extract_server_info("[FOUND] 10.0.0.1:80 - 0/10 - 1.19.2 - left - right - end").unwrap();
    assert_eq!(server.version, "1.19.2");
    assert_eq!(server.description, "left - right - end");
}

#[test]
fn extract_round_trips_the_formatter() {
    let msg = format_found_message("203.0.113.7", 25565, 12, 100, "1.20.6", "Hello - world");
    let server = extract_server_info(&msg).unwrap();
    assert_eq!(server.ip, "203.0.113.7");
    assert_eq!(server.port, 25565);
    assert_eq!(server.players_online, 12);
    assert_eq!(server.players_max, 100);
    assert_eq!(server.version, "1.20.6");
    assert_eq!(server.description, "Hello - world");
}

#[test]
fn extract_rejects_messages_of_the_wrong_shape() {
    assert!(extract_server_info("").is_none());
    assert!(extract_server_info("[MISS] 1.2.3.4:1 - 0/0 - v - d").is_none());
    assert!(extract_server_info("[FOUND]").is_none());
    assert!(extract_server_info("[FOUND] 1.2.3.4:25565 - 5/20 - 1.21.4").is_none());
    assert!(extract_server_info("[FOUND] 1.2.3.4 - 5/20 - 1.21.4 - d").is_none());
    assert!(extract_server_info("[FOUND] 1.2.3.4:9:9 - 5/20 - 1.21.4 - d").is_none());
    assert!(extract_server_info("[FOUND] 1.2.3.4:70000 - 5/20 - 1.21.4 - d").is_none());
    assert!(extract_server_info("[FOUND] 1.2.3.4:25565 - 5of20 - 1.21.4 - d").is_none());
    assert!(extract_server_info("[FOUND] 1.2.3.4:25565 - 5/20/9 - 1.21.4 - d").is_none());
    assert!(extract_server_info("[FOUND] 1.2.3.4:25565 - x/20 - 1.21.4 - d").is_none());
}

#[test]
fn webhooks_follow_version_line_and_activity() {
    let config = sample_config();
    assert_eq!(get_webhook_for_server(&config, &server_with("1.21.4", 3)), "hook-121-active");
    assert_eq!(get_webhook_for_server(&config, &server_with("1.21.4", 0)), "hook-121-empty");
    assert_eq!(get_webhook_for_server(&config, &server_with("1.20.1", 1)), "hook-120-active");
    assert_eq!(get_webhook_for_server(&config, &server_with("1.20.1", 0)), "hook-120-empty");
    assert_eq!(get_webhook_for_server(&config, &server_with("1.19", 9)), "hook-119-active");
    assert_eq!(get_webhook_for_server(&config, &server_with("1.19", 0)), "hook-119-empty");
    assert_eq!(get_webhook_for_server(&config, &server_with("1.8.9", 2)), "hook-other-active");
    assert_eq!(get_webhook_for_server(&config, &server_with("1.8.9", 0)), "hook-other-empty");
}

#[test]
fn colors_follow_version_line_and_activity() {
    assert_eq!(get_color_for_server(&server_with("1.21.0", 5)), 0x00ff00);
    assert_eq!(get_color_for_server(&server_with("1.21.0", 0)), 0x004400);
    assert_eq!(get_color_for_server(&server_with("1.20.4", 5)), 0x0099ff);
    assert_eq!(get_color_for_server(&server_with("1.20.4", 0)), 0x003366);
    assert_eq!(get_color_for_server(&server_with("1.19.2", 5)), 0xffaa00);
    assert_eq!(get_color_for_server(&server_with("1.19.2", 0)), 0x664400);
    assert_eq!(get_color_for_server(&server_with("1.7.10", 5)), 0xff0066);
    assert_eq!(get_color_for_server(&server_with("1.7.10", 0)), 0x660033);
}
