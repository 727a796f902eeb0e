use jutils::error::{failure_reply, CommandFailure};
use jutils::events::{quote_embed, QuotedMessage};
use jutils::utils::command_utils::EmbedStyle;
use std::time::Duration;
use jutils::error::unknown_command_reply;
use jutils::events::{
    activity_text, attachment_links, find_message_links, links_to_follow, message_link, parse_message_links,
};
use jutils::send::{link_rows, message_embed, Embed, Field, LinkComponent};
use jutils::text::{parse_u64, split_char, trim_end_matches, trim_start_matches};
use jutils::utils::leveling::animation_utils::{
    animation_file_bytes, animation_from_download, check_animation_source, check_frames_size, AnimationError, GifFrame,
};
use jutils::utils::leveling::anti_spam::AntiSpam;
use jutils::utils::leveling::dynamic_image_utils::{
    picture_from_bytes,
    add_rounded_corners, centered_offset, keeps_pixel, set_transparency, PixelBuffer,
};
use jutils::utils::time_utils::format_duration_secs;
use jutils::utils::utils::{
    bool_label, can_moderate, pagination_ids, parse_custom_emoji, reaction_text, turn_page,
};
use jutils::utils::{chunk, compare_roles, format_duration, generate_id, package_info_url};

#[test]
fn duration_formats() {
    assert_eq!(format_duration_secs(0), "00:00");
    assert_eq!(format_duration_secs(59), "00:59");
    assert_eq!(format_duration_secs(61), "01:01");
    assert_eq!(format_duration_secs(3600), "01:00:00");
    assert_eq!(format_duration_secs(86400), "01:00:00:00");
    assert_eq!(format_duration_secs(90061), "01:01:01:01");
    assert_eq!(format_duration_secs(100 * 86400 + 5), "100:00:00:05");
    assert_eq!(format_duration(Duration::from_millis(3661_900)), "01:01:01");
}

#[test]
fn chunks() {
    assert_eq!(chunk(vec![1, 2, 3, 4, 5, 6, 7], 3), vec![vec![1, 2, 3], vec![4, 5, 6], vec![7]]);
    assert_eq!(chunk(vec![1, 2, 3], 3), vec![vec![1, 2, 3]]);
    assert_eq!(chunk(Vec::<u8>::new(), 4), Vec::<Vec<u8>>::new());
    let v: Vec<u32> = (0..100).collect();
    let parts = chunk(v.clone(), 9);
    assert_eq!(parts.len(), 12);
    assert!(parts.iter().all(|p| !p.is_empty() && p.len() <= 9));
    assert_eq!(parts.concat(), v);
}

#[test]
fn anti_spam_limits_recent_messages() {
    let s = 1_000_000_000u128;
    let mut a = AntiSpam::with_window_nanos(3, 20 * s);
    assert!(!a.is_spamming_at("user1", 0));
    assert!(!a.is_spamming_at("user1", s));
    assert!(!a.is_spamming_at("user1", 2 * s));
    assert!(a.is_spamming_at("user1", 3 * s));
    assert!(!a.is_spamming_at("user2", 3 * s));
    assert!(a.is_spamming_at("user1", 19 * s));
    assert!(!a.is_spamming_at("user1", 20 * s));
    assert!(!a.is_spamming_at("user1", 21 * s));
    assert!(!a.is_spamming_at("user1", 22 * s));
    assert!(a.is_spamming_at("user1", 23 * s));
    assert!(!a.is_spamming_at("user1", 100 * s));
}

#[test]
fn test_anti_spam() {
    let mut anti_spam = AntiSpam::shared();
    let user_id = "user1";

    for _ in 0..5 {
        assert_eq!(anti_spam.is_spamming(user_id), false);
    }

    assert_eq!(anti_spam.is_spamming(user_id), true);

    tokio::runtime::Builder::new_current_thread()
        .enable_time()
        .build()
        .unwrap()
        .block_on(async { tokio::time::sleep(Duration::from_secs(10)).await });

    assert_eq!(anti_spam.is_spamming(user_id), false);
}

#[test]
fn anti_spam_shared_tracker_at_fixed_times() {
    let s = 1_000_000_000u128;
    let mut a = AntiSpam::shared();
    for _ in 0..5 {
        assert!(!a.is_spamming_at("user1", 0));
    }
    assert!(a.is_spamming_at("user1", 0));
    assert!(a.is_spamming_at("user1", 10 * s - 1));
    assert!(!a.is_spamming_at("user1", 10 * s));
}

#[test]
fn anti_spam_other_users_change_nothing() {
    let s = 1_000_000_000u128;
    let mut alone = AntiSpam::with_window_nanos(2, 5 * s);
    let mut shared = AntiSpam::with_window_nanos(2, 5 * s);
    let times = [0u128, s, 2 * s, 5 * s, 6 * s, 7 * s];
    for (i, t) in times.iter().enumerate() {
        let _ = shared.is_spamming_at("user2", *t);
        if i % 2 == 0 {
            let _ = shared.is_spamming_at("user3", *t);
        }
        assert_eq!(alone.is_spamming_at("user1", *t), shared.is_spamming_at("user1", *t));
    }
}

#[test]
fn anti_spam_zero_limit_always_flags() {
    let mut a = AntiSpam::with_window_nanos(0, 10);
    assert!(a.is_spamming_at("u", 0));
    assert!(a.is_spamming_at("u", 1000));
}

#[test]
fn anti_spam_with_the_clock() {
    let mut a = AntiSpam::shared();
    for _ in 0..5 {
        assert!(!a.is_spamming("user1"));
    }
    assert!(a.is_spamming("user1"));
    assert!(!a.is_spamming("user2"));
}

#[test]
fn random_ids() {
    let id = generate_id(16);
    assert_eq!(id.chars().count(), 16);
    assert!(id.chars().all(|c| c.is_ascii_alphanumeric()));
    assert_eq!(generate_id(0), "");
}

#[test]
fn custom_emoji_parsing() {
    assert_eq!(parse_custom_emoji("<:check:123>"), Some(("check".to_string(), 123)));
    assert_eq!(parse_custom_emoji("<:<:x:9>>"), Some(("x".to_string(), 9)));
    assert_eq!(parse_custom_emoji("<:x:+7>"), Some(("x".to_string(), 7)));
    assert_eq!(parse_custom_emoji("<:x:0>"), None);
    assert_eq!(parse_custom_emoji("<:x:abc>"), None);
    assert_eq!(parse_custom_emoji("plain"), None);
    assert_eq!(parse_custom_emoji("<:a:1:2>"), Some(("a".to_string(), 1)));
}

#[test]
fn flag_texts() {
    assert_eq!(bool_label(true), "True");
    assert_eq!(bool_label(false), "False");
    assert_eq!(reaction_text(true, "<:y:1>", "<:n:2>"), "<:y:1>");
    assert_eq!(reaction_text(false, "<:y:1>", "<:n:2>"), "<:n:2>");
}

#[test]
fn moderation_reasons() {
    assert_eq!(can_moderate(1, 2, None, 9), "");
    assert_eq!(can_moderate(1, 1, None, 9), "You cannot moderate yourself.");
    assert_eq!(can_moderate(1, 1, Some(8), 9), "The target is an administrator.");
    assert_eq!(can_moderate(1, 2, Some(8 | 16), 9), "");
    assert_eq!(can_moderate(1, 9, Some(8), 9), "The target is the owner of the guild.");
    assert!(compare_roles(1, 2));
    assert!(!compare_roles(2, 2));
}

#[test]
fn pages_turn_and_wrap() {
    let (prefix, prev, next) = pagination_ids("help", 42);
    assert_eq!(prefix, "jutils.help.42");
    assert_eq!(prev, "jutils.help.42.prev");
    assert_eq!(next, "jutils.help.42.next");
    assert_eq!(turn_page(0, 3, &next, &next, &prev), Some(1));
    assert_eq!(turn_page(2, 3, &next, &next, &prev), Some(0));
    assert_eq!(turn_page(0, 3, &prev, &next, &prev), Some(2));
    assert_eq!(turn_page(1, 3, &prev, &next, &prev), Some(0));
    assert_eq!(turn_page(1, 3, "other", &next, &prev), None);
    for p in 0..3 {
        let q = turn_page(p, 3, &next, &next, &prev).unwrap();
        assert_eq!(turn_page(q, 3, &prev, &next, &prev), Some(p));
    }
}

#[test]
fn link_button_rows() {
    let l = |n: usize| -> Vec<LinkComponent> {
        (0..n).map(|i| LinkComponent { name: format!("b{}", i), url: format!("https://x/{}", i) }).collect()
    };
    let names = |rows: Vec<Vec<LinkComponent>>| -> Vec<Vec<String>> {
        rows.into_iter().map(|r| r.into_iter().map(|c| c.name).collect()).collect()
    };
    assert_eq!(names(link_rows(l(3))), vec![vec!["b0", "b1", "b2"]]);
    assert_eq!(names(link_rows(l(0))), vec![Vec::<String>::new()]);
    assert_eq!(
        names(link_rows(l(7))),
        vec![vec!["b0".to_string(), "b1".into(), "b2".into(), "b3".into(), "b4".into()], vec!["b5".into()], vec!["b6".into()], vec![]]
    );
    assert_eq!(link_rows(l(5)).len(), 2);
}

#[test]
fn message_links() {
    let found = find_message_links("see https://discord.com/channels/1/2/3 and HTTPS://DISCORD.COM/CHANNELS/4/5/6 now");
    assert_eq!(found, Some(vec![Some((1, 2, 3)), Some((4, 5, 6))]));
    let big = find_message_links("https://discord.com/channels/99999999999999999999/2/3");
    assert_eq!(big, Some(vec![None]));
    assert_eq!(find_message_links("https://discord.com/channels/1/2"), Some(vec![]));
    let group = |t: &str| Some(t.to_string());
    let caps = vec![
        vec![group("whole"), group("7"), group("8"), group("x")],
        vec![group("whole"), group("10"), group("11"), group("12")],
        vec![group("whole"), group("1"), None, group("3")],
        vec![group("whole"), group("1")],
    ];
    assert_eq!(parse_message_links(&caps), vec![None, Some((10, 11, 12)), None, None]);
    assert_eq!(message_link(1, 22, 333), "https://discord.com/channels/1/22/333");
}

#[test]
fn links_followed_in_the_own_guild() {
    let links = vec![Some((1, 2, 3)), Some((9, 2, 3)), None, Some((1, 5, 6))];
    assert_eq!(links_to_follow(1, &links), vec![Some((1, 2, 3)), None, Some((1, 5, 6))]);
    assert_eq!(links_to_follow(9, &links), vec![Some((9, 2, 3)), None]);
    assert_eq!(links_to_follow(7, &vec![]), vec![]);
}

#[test]
fn quoted_message_parts() {
    let a = vec![("a.png".to_string(), "https://c/a.png".to_string()), ("b".to_string(), "u".to_string())];
    assert_eq!(attachment_links(&a), "[a.png](https://c/a.png), [b](u)");
    assert_eq!(attachment_links(&vec![]), "");
    assert_eq!(activity_text("!", true, "hello"), "!help | hello");
    assert_eq!(activity_text("!", false, "hello"), "hello");
}

#[test]
fn unknown_commands() {
    assert_eq!(unknown_command_reply("!foo bar baz"), "`!foo`: Unknown command");
    assert_eq!(unknown_command_reply("!solo"), "`!solo`: Unknown command");
    assert_eq!(unknown_command_reply(" lead"), "``: Unknown command");
}

#[test]
fn text_primitives() {
    assert_eq!(parse_u64("+12"), Some(12));
    assert_eq!(parse_u64("18446744073709551615"), Some(u64::MAX));
    assert_eq!(parse_u64("18446744073709551616"), None);
    assert_eq!(parse_u64("-1"), None);
    assert_eq!(parse_u64("+"), None);
    assert_eq!(parse_u64(""), None);
    assert_eq!(parse_u64("１"), None);
    assert_eq!(split_char("a::b", ':'), vec!["a", "", "b"]);
    assert_eq!(trim_start_matches("xxxy", "x"), "y");
    assert_eq!(trim_end_matches("y>>", ">"), "y");
    assert_eq!(trim_start_matches("abc", ""), "abc");
}

#[test]
fn image_geometry() {
    assert!(!keeps_pixel(0, 0, 125, 125, 62));
    assert!(keeps_pixel(62, 62, 125, 125, 62));
    assert!(keeps_pixel(62, 0, 125, 125, 62));
    assert!(!keeps_pixel(124, 124, 125, 125, 62));
    assert!(keeps_pixel(0, 0, 10, 10, 0));
    assert_eq!(centered_offset(1250, 400, 1250, 400), (0, 0));
    assert_eq!(centered_offset(1250, 400, 1000, 101), (125, 149));
}

#[test]
fn rounded_corners_and_transparency() {
    let px = |i: u8| [i, 10, 20, 255];
    let image = PixelBuffer { width: 4, height: 4, pixels: (0..16).map(px).collect() };
    let rounded = add_rounded_corners(image.clone(), 2);
    assert_eq!((rounded.width, rounded.height), (4, 4));
    for i in 0..16usize {
        let expected = if [5, 6, 9, 10].contains(&i) { px(i as u8) } else { [0, 0, 0, 0] };
        assert_eq!(rounded.pixels[i], expected);
    }
    assert_eq!(add_rounded_corners(image.clone(), 0).pixels, image.pixels);
    let small = PixelBuffer { width: 2, height: 2, pixels: vec![[1, 1, 1, 1]; 4] };
    assert_eq!(add_rounded_corners(small, 3).pixels, vec![[0, 0, 0, 0], [0, 0, 0, 0], [0, 0, 0, 0], [1, 1, 1, 1]]);
    let faded = set_transparency(image, 128);
    assert_eq!(faded.pixels[3], [3, 10, 20, 128]);
    assert!(faded.pixels.iter().all(|p| p[3] == 128));
}

#[test]
fn animation_limits() {
    assert_eq!(check_animation_source("https://x/a.gif", 10), Ok(()));
    assert_eq!(check_animation_source("https://x/a.gif", 10 * 1024 * 1024 + 1), Err(AnimationError::FileTooLarge));
    assert_eq!(check_animation_source("https://x/a.png", 10), Err(AnimationError::ApngUnsupported));
    assert_eq!(check_animation_source("https://x/a.apng", 10 * 1024 * 1024), Err(AnimationError::ApngUnsupported));
    assert_eq!(check_frames_size(124 * 1024 * 1024), Ok(()));
    assert_eq!(check_frames_size(124 * 1024 * 1024 + 1), Err(AnimationError::FramesTooLarge));
    assert_eq!(AnimationError::FileTooLarge.message(), "File too large");
    assert_eq!(AnimationError::FramesTooLarge.message(), "Total frame size exceeds 12MB");
    assert_eq!(AnimationError::ApngUnsupported.message(), "APNG support is not implemented yet");
}

#[test]
fn package_address() {
    assert_eq!(package_info_url("https://pypi.org/pypi/", "requests", "/json"), "https://pypi.org/pypi/requests/json");
}

#[test]
fn failure_replies() {
    let r = failure_reply(CommandFailure::ArgumentParse("bad number".to_string()));
    assert_eq!((r.style, r.title.as_str(), r.description.as_deref()), (EmbedStyle::Error, "Argument parse error", Some("bad number")));
    assert!(r.fields.is_empty());
    let r = failure_reply(CommandFailure::Command("boom".to_string()));
    assert_eq!((r.title.as_str(), r.description.as_deref()), ("An error occured while running the command!", Some("boom")));
    let r = failure_reply(CommandFailure::MissingUserPermissions(vec!["BAN_MEMBERS".to_string(), "KICK_MEMBERS".to_string()]));
    assert_eq!(r.title, "Access denied");
    assert_eq!(r.description.as_deref(), Some("You don't have enough permissions to use this command!"));
    assert_eq!(
        r.fields.iter().map(|f| (f.name.as_str(), f.value.as_str(), f.inline)).collect::<Vec<_>>(),
        vec![("Required Permissions", "BAN_MEMBERS, KICK_MEMBERS", true)]
    );
    let r = failure_reply(CommandFailure::CommandPanic);
    assert_eq!((r.title.as_str(), r.description.as_deref()), ("A panic has occured while executing this command!", None));
}

#[test]
fn quoted_messages() {
    let q = QuotedMessage {
        author_name: "alice".to_string(),
        author_icon: "https://cdn/a.png".to_string(),
        link: "https://discord.com/channels/1/2/3".to_string(),
        message_id: 3,
        channel_name: "general".to_string(),
        content: "hello".to_string(),
        pinned: false,
        from_app: true,
        reference: Some((1, 2, 9)),
        attachments: vec![("a.txt".to_string(), "https://cdn/a.txt".to_string())],
    };
    let r = quote_embed(q.clone());
    assert_eq!(r.title, "Message `3` in general");
    assert_eq!(r.description.as_deref(), Some("hello"));
    assert_eq!(r.url.as_deref(), Some("https://discord.com/channels/1/2/3"));
    assert_eq!(r.author, Some(("alice".to_string(), "https://cdn/a.png".to_string())));
    assert_eq!(
        r.fields.iter().map(|f| (f.name.as_str(), f.value.as_str(), f.inline)).collect::<Vec<_>>(),
        vec![
            ("Pinned?", "false", true),
            ("Sent by an app?", "true", true),
            ("Reference", "https://discord.com/channels/1/2/9", false),
            ("Attachments", "[a.txt](https://cdn/a.txt)", false),
        ]
    );
    let plain = QuotedMessage { reference: None, attachments: vec![], pinned: true, ..q };
    let r = quote_embed(plain);
    assert_eq!(r.fields.len(), 2);
    assert_eq!(r.fields[0].value, "true");
}

#[test]
fn sent_message_embed() {
    let e = Embed {
        title: "News".to_string(),
        description: "Body".to_string(),
        url: None,
        thumbnail: Some("https://cdn/t.png".to_string()),
        image: None,
        fields: vec![Field { name: "a".to_string(), value: "b".to_string(), inline: false }],
    };
    let r = message_embed(e);
    assert_eq!(r.style, EmbedStyle::Plain);
    assert_eq!((r.title.as_str(), r.description.as_deref()), ("News", Some("Body")));
    assert_eq!((r.url.as_deref(), r.image.as_deref(), r.thumbnail.as_deref()), (Some(""), Some(""), Some("https://cdn/t.png")));
    assert_eq!((r.fields[0].name.as_str(), r.fields[0].value.as_str(), r.fields[0].inline), ("a", "b", false));
}

#[test]
fn duration_text_reads_back() {
    let read = |t: &str| -> u64 {
        let fields: Vec<u64> = t.split(':').map(|f| f.parse().unwrap()).collect();
        let radices = [86400u64, 3600, 60, 1];
        let start = radices.len() - fields.len();
        fields.iter().zip(radices[start..].iter()).map(|(f, r)| f * r).sum()
    };
    for secs in [0u64, 5, 59, 60, 3599, 3600, 3661, 86399, 86400, 90061, 100 * 86400 + 5, 1_000_000_007] {
        assert_eq!(read(&format_duration_secs(secs)), secs);
    }
    assert_ne!(format_duration_secs(61), format_duration_secs(3601));
}

#[test]
fn pictures_decode_from_bytes() {
    assert!(picture_from_bytes(&b"not an image".to_vec()).is_none());
    let img = image::RgbaImage::from_raw(2, 1, vec![255, 0, 0, 255, 0, 0, 255, 128]).unwrap();
    let mut bytes = std::io::Cursor::new(Vec::new());
    img.write_to(&mut bytes, image::ImageFormat::Png).unwrap();
    let picture = picture_from_bytes(&bytes.into_inner()).unwrap();
    assert_eq!((picture.width, picture.height), (2, 1));
    assert_eq!(picture.pixels, vec![[255, 0, 0, 255], [0, 0, 255, 128]]);
}

fn solid_frame(colour: [u8; 4], delay_ms: u32) -> GifFrame {
    GifFrame { width: 4, height: 2, rgba: colour.repeat(8), delay_numer: delay_ms, delay_denom: 1 }
}

#[test]
fn animations_encode_and_decode() {
    let frames = vec![
        solid_frame([0, 0, 0, 255], 100),
        solid_frame([255, 255, 255, 255], 200),
        solid_frame([0, 0, 0, 255], 300),
    ];
    let bytes = animation_file_bytes(&frames).unwrap();
    assert!(bytes.starts_with(b"GIF89a"));
    let decoded = animation_from_download("https://x/a.gif", &bytes).unwrap();
    assert_eq!(decoded.len(), 2);
    assert!(decoded.iter().all(|f| f.width == 4 && f.height == 2 && f.rgba.len() == 32));
    assert_eq!((decoded[0].delay_numer, decoded[0].delay_denom), (200, 1));
    assert_eq!((decoded[1].delay_numer, decoded[1].delay_denom), (300, 1));
    assert_eq!(animation_file_bytes(&vec![]), Ok(vec![]));
}

#[test]
fn animation_refusals() {
    assert_eq!(animation_from_download("https://x/a.png", &vec![0u8; 4]), Err(AnimationError::ApngUnsupported));
    assert_eq!(
        animation_from_download("https://x/a.gif", &vec![0u8; 10 * 1024 * 1024 + 1]),
        Err(AnimationError::FileTooLarge)
    );
    assert_eq!(animation_from_download("https://x/a.gif", &b"GIF89a garbage".to_vec()), Err(AnimationError::DecodeFailed));
    let empty_gif = vec![b'G', b'I', b'F', b'8', b'9', b'a', 1, 0, 1, 0, 0, 0, 0, 0x3B, 0, 0, 0];
    assert_eq!(animation_from_download("https://x/a.gif", &empty_gif), Err(AnimationError::NoFrames));
    let big = GifFrame { width: 8192, height: 3969, rgba: vec![0u8; 4 * 8192 * 3969], delay_numer: 10, delay_denom: 1 };
    assert_eq!(animation_file_bytes(&vec![big]), Err(AnimationError::FramesTooLarge));
    assert_eq!(AnimationError::NoFrames.message(), "No frames found in the GIF");
    assert_eq!(AnimationError::DecodeFailed.message(), "Failed to decode the GIF");
    assert_eq!(AnimationError::EncodeFailed.message(), "Failed to encode the GIF");
}
