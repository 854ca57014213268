//! Discovered-server records: parsing them back out of discovery
//! messages, and choosing the notification endpoint and color for one.
//!
//! Delivering a notification is an outside collaborator's work; which
//! endpoint it goes to and what the record holds are verified here.

use crate::config::DiscordConfig;
use vstd::prelude::*;
use vstd::string::StrSliceExecFns;

verus! {

/// A discovered server, ready for notification.
#[derive(Debug, Clone)]
pub struct MinecraftServer {
    pub ip: String,
    pub port: u16,
    pub players_online: u32,
    pub players_max: u32,
    pub version: String,
    pub description: String,
    pub country: Option<String>,
}

/// Does `s` start with `p`?
pub open spec fn has_prefix(s: Seq<char>, p: Seq<char>) -> bool {
    s.len() >= p.len() && s.take(p.len() as int) == p
}

/// Check whether `s` starts with `p`.
pub fn has_prefix_exec(s: &str, p: &str) -> (r: bool)
    ensures
        r == has_prefix(s@, p@),
{
    let n = s.unicode_len();
    let m = p.unicode_len();
    if m > n {
        return false;
    }
    let r = crate::text::matches_at_exec(s, p, 0);
    proof {
        assert(s@.subrange(0, p@.len() as int) =~= s@.take(p@.len() as int));
    }
    r
}

/// What parsing a discovery message yields: the address, port, player
/// counts, version and description of
/// `[FOUND] ip:port - online/max - version - description`, splitting at
/// the first three ` - ` separators, with exactly one `:` in the address
/// part and exactly one `/` in the player part.
pub open spec fn extract_server_info_spec(msg: Seq<char>) -> Option<
    (Seq<char>, u16, u32, u32, Seq<char>, Seq<char>),
> {
    if !(msg.len() >= 8 && msg.take(8) == "[FOUND] "@) {
        Option::None
    } else {
        let content = msg.skip(8);
        let i1 = crate::text::find_sub(content, " - "@);
        if i1 < 0 {
            Option::None
        } else {
            let part0 = content.take(i1);
            let tail1 = content.skip(i1 + 3);
            let i2 = crate::text::find_sub(tail1, " - "@);
            if i2 < 0 {
                Option::None
            } else {
                let part1 = tail1.take(i2);
                let tail2 = tail1.skip(i2 + 3);
                let i3 = crate::text::find_sub(tail2, " - "@);
                if i3 < 0 {
                    Option::None
                } else {
                    let version = tail2.take(i3);
                    let desc = tail2.skip(i3 + 3);
                    let c = crate::text::find_char(part0, ':');
                    if c < 0 || crate::text::find_char(part0.skip(c + 1), ':') >= 0 {
                        Option::None
                    } else {
                        let ip = part0.take(c);
                        let port = crate::text::parse_uint_spec(part0.skip(c + 1), 0xFFFF);
                        let sl = crate::text::find_char(part1, '/');
                        if sl < 0 || crate::text::find_char(part1.skip(sl + 1), '/') >= 0 {
                            Option::None
                        } else {
                            let online = crate::text::parse_uint_spec(
                                part1.take(sl),
                                0xFFFF_FFFF,
                            );
                            let maxp = crate::text::parse_uint_spec(
                                part1.skip(sl + 1),
                                0xFFFF_FFFF,
                            );
                            match (port, online, maxp) {
                                (
                                    Option::Some(p),
                                    Option::Some(on),
                                    Option::Some(mx),
                                ) => Option::Some(
                                    (ip, p as u16, on as u32, mx as u32, version, desc),
                                ),
                                _ => Option::None,
                            }
                        }
                    }
                }
            }
        }
    }
}

/// Parse a discovery message back into a server record; `None` for any
/// message not of the discovery shape.
pub fn extract_server_info(found_message: &str) -> (r: Option<MinecraftServer>)
    ensures
        match r {
            Some(srv) => {
                &&& extract_server_info_spec(found_message@) matches Option::Some(t)
                    && srv.ip@ == t.0 && srv.port == t.1 && srv.players_online == t.2
                    && srv.players_max == t.3 && srv.version@ == t.4 && srv.description@
                    == t.5
                &&& srv.country is None
            },
            None => extract_server_info_spec(found_message@) is None,
        },
{
    let n = found_message.unicode_len();
    proof {
        reveal_strlit("[FOUND] ");
    }
    if n < 8 {
        return None;
    }
    if !crate::text::matches_at_exec(found_message, "[FOUND] ", 0) {
        proof {
            assert(found_message@.subrange(0, 8) =~= found_message@.take(8));
        }
        return None;
    }
    proof {
        assert(found_message@.subrange(0, 8) =~= found_message@.take(8));
    }
    let content = found_message.substring_char(8, n);
    proof {
        assert(content@ =~= found_message@.skip(8));
    }
    let cn = content.unicode_len();
    let i1 = match crate::text::find_sub_exec(content, " - ") {
        Some(i) => i,
        None => {
            proof {
                reveal_strlit(" - ");
            }
            return None;
        },
    };
    proof {
        reveal_strlit(" - ");
        crate::text::lemma_find_sub_props(content@, " - "@);
    }
    let part0 = content.substring_char(0, i1);
    let tail1 = content.substring_char(i1 + 3, cn);
    proof {
        assert(part0@ =~= content@.take(i1 as int));
        assert(tail1@ =~= content@.skip(i1 + 3));
    }
    let t1n = tail1.unicode_len();
    let i2 = match crate::text::find_sub_exec(tail1, " - ") {
        Some(i) => i,
        None => {
            return None;
        },
    };
    proof {
        crate::text::lemma_find_sub_props(tail1@, " - "@);
    }
    let part1 = tail1.substring_char(0, i2);
    let tail2 = tail1.substring_char(i2 + 3, t1n);
    proof {
        assert(part1@ =~= tail1@.take(i2 as int));
        assert(tail2@ =~= tail1@.skip(i2 + 3));
    }
    let t2n = tail2.unicode_len();
    let i3 = match crate::text::find_sub_exec(tail2, " - ") {
        Some(i) => i,
        None => {
            return None;
        },
    };
    proof {
        crate::text::lemma_find_sub_props(tail2@, " - "@);
    }
    let version = tail2.substring_char(0, i3);
    let desc = tail2.substring_char(i3 + 3, t2n);
    proof {
        assert(version@ =~= tail2@.take(i3 as int));
        assert(desc@ =~= tail2@.skip(i3 + 3));
    }
    let p0n = part0.unicode_len();
    let c = match crate::text::find_char_exec(part0, ':') {
        Some(i) => i,
        None => {
            return None;
        },
    };
    proof {
        crate::text::lemma_find_char_props(part0@, ':');
    }
    let after_colon = part0.substring_char(c + 1, p0n);
    proof {
        assert(after_colon@ =~= part0@.skip(c + 1));
    }
    match crate::text::find_char_exec(after_colon, ':') {
        Some(_) => {
            return None;
        },
        None => {},
    }
    let ip = part0.substring_char(0, c);
    proof {
        assert(ip@ =~= part0@.take(c as int));
    }
    let port = match crate::text::parse_uint(after_colon, 0xFFFF) {
        Some(v) => v as u16,
        None => {
            return None;
        },
    };
    let p1n = part1.unicode_len();
    let sl = match crate::text::find_char_exec(part1, '/') {
        Some(i) => i,
        None => {
            return None;
        },
    };
    proof {
        crate::text::lemma_find_char_props(part1@, '/');
    }
    let after_slash = part1.substring_char(sl + 1, p1n);
    proof {
        assert(after_slash@ =~= part1@.skip(sl + 1));
    }
    match crate::text::find_char_exec(after_slash, '/') {
        Some(_) => {
            return None;
        },
        None => {},
    }
    let before_slash = part1.substring_char(0, sl);
    proof {
        assert(before_slash@ =~= part1@.take(sl as int));
    }
    let online = match crate::text::parse_uint(before_slash, 0xFFFF_FFFF) {
        Some(v) => v as u32,
        None => {
            return None;
        },
    };
    let players_max = match crate::text::parse_uint(after_slash, 0xFFFF_FFFF) {
        Some(v) => v as u32,
        None => {
            return None;
        },
    };
    Some(
        MinecraftServer {
            ip: ip.to_owned(),
            port,
            players_online: online,
            players_max,
            version: version.to_owned(),
            description: desc.to_owned(),
            country: None,
        },
    )
}

/// The endpoint a discovery goes to: one per version line (1.21, 1.20,
/// 1.19, other), with an active and an empty variant by player count.
pub open spec fn webhook_for_server_spec(
    config: DiscordConfig,
    server: MinecraftServer,
) -> Seq<char> {
    let active = server.players_online > 0;
    if has_prefix(server.version@, "1.21"@) {
        if active {
            config.webhook_121_active@
        } else {
            config.webhook_121_empty@
        }
    } else if has_prefix(server.version@, "1.20"@) {
        if active {
            config.webhook_120_active@
        } else {
            config.webhook_120_empty@
        }
    } else if has_prefix(server.version@, "1.19"@) {
        if active {
            config.webhook_119_active@
        } else {
            config.webhook_119_empty@
        }
    } else {
        if active {
            config.webhook_other_active@
        } else {
            config.webhook_other_empty@
        }
    }
}

/// Pick the notification endpoint for a discovered server.
pub fn get_webhook_for_server<'a>(config: &'a DiscordConfig, server: &MinecraftServer) -> (r:
    &'a String)
    ensures
        r@ == webhook_for_server_spec(*config, *server),
{
    let active = server.players_online > 0;
    if has_prefix_exec(server.version.as_str(), "1.21") {
        if active {
            &config.webhook_121_active
        } else {
            &config.webhook_121_empty
        }
    } else if has_prefix_exec(server.version.as_str(), "1.20") {
        if active {
            &config.webhook_120_active
        } else {
            &config.webhook_120_empty
        }
    } else if has_prefix_exec(server.version.as_str(), "1.19") {
        if active {
            &config.webhook_119_active
        } else {
            &config.webhook_119_empty
        }
    } else {
        if active {
            &config.webhook_other_active
        } else {
            &config.webhook_other_empty
        }
    }
}

/// The embed color for a discovered server, by version line and
/// activity.
pub open spec fn color_for_server_spec(server: MinecraftServer) -> u32 {
    let active = server.players_online > 0;
    if has_prefix(server.version@, "1.21"@) {
        if active {
            0x00ff00u32
        } else {
            0x004400u32
        }
    } else if has_prefix(server.version@, "1.20"@) {
        if active {
            0x0099ffu32
        } else {
            0x003366u32
        }
    } else if has_prefix(server.version@, "1.19"@) {
        if active {
            0xffaa00u32
        } else {
            0x664400u32
        }
    } else {
        if active {
            0xff0066u32
        } else {
            0x660033u32
        }
    }
}

/// Pick the embed color for a discovered server.
pub fn get_color_for_server(server: &MinecraftServer) -> (r: u32)
    ensures
        r == color_for_server_spec(*server),
{
    let active = server.players_online > 0;
    if has_prefix_exec(server.version.as_str(), "1.21") {
        if active {
            0x00ff00
        } else {
            0x004400
        }
    } else if has_prefix_exec(server.version.as_str(), "1.20") {
        if active {
            0x0099ff
        } else {
            0x003366
        }
    } else if has_prefix_exec(server.version.as_str(), "1.19") {
        if active {
            0xffaa00
        } else {
            0x664400
        }
    } else {
        if active {
            0xff0066
        } else {
            0x660033
        }
    }
}

} // verus!
