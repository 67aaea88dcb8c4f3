use cliscord::formatter::{display_name, format_reply, resolve_guild, ReplyContext};

fn ctx() -> ReplyContext {
    ReplyContext {
        content: b"hello".to_vec(),
        message_id: b"111".to_vec(),
        username: b"alice_global".to_vec(),
        author_id: b"222".to_vec(),
        discriminator: b"1234".to_vec(),
        nick: b"alice".to_vec(),
        channel_name: b"general".to_vec(),
        channel_id: b"333".to_vec(),
        server_name: b"myserver".to_vec(),
        server_id: b"444".to_vec(),
    }
}

#[test]
fn renders_nick_and_message() {
    assert_eq!(format_reply(&b"%n: %m".to_vec(), &ctx()), b"alice: hello".to_vec());
}

#[test]
fn double_percent_renders_one() {
    assert_eq!(format_reply(&b"%%literal".to_vec(), &ctx()), b"%literal".to_vec());
}

#[test]
fn trailing_percent_stays() {
    assert_eq!(format_reply(&b"end%".to_vec(), &ctx()), b"end%".to_vec());
}

#[test]
fn unknown_directive_echoes_verbatim() {
    assert_eq!(format_reply(&b"%z".to_vec(), &ctx()), b"%z".to_vec());
    assert_eq!(format_reply(&b"a%zb".to_vec(), &ctx()), b"a%zb".to_vec());
}

#[test]
fn every_directive_renders_its_field() {
    let c = ctx();
    assert_eq!(format_reply(&b"%m".to_vec(), &c), b"hello".to_vec());
    assert_eq!(format_reply(&b"%M".to_vec(), &c), b"111".to_vec());
    assert_eq!(format_reply(&b"%u".to_vec(), &c), b"alice_global".to_vec());
    assert_eq!(format_reply(&b"%U".to_vec(), &c), b"222".to_vec());
    assert_eq!(format_reply(&b"%d".to_vec(), &c), b"1234".to_vec());
    assert_eq!(format_reply(&b"%n".to_vec(), &c), b"alice".to_vec());
    assert_eq!(format_reply(&b"%c".to_vec(), &c), b"general".to_vec());
    assert_eq!(format_reply(&b"%C".to_vec(), &c), b"333".to_vec());
    assert_eq!(format_reply(&b"%s".to_vec(), &c), b"myserver".to_vec());
    assert_eq!(format_reply(&b"%S".to_vec(), &c), b"444".to_vec());
}

#[test]
fn plain_template_passes_through() {
    assert_eq!(format_reply(&b"no directives".to_vec(), &ctx()), b"no directives".to_vec());
    assert_eq!(format_reply(&b"".to_vec(), &ctx()), b"".to_vec());
}

#[test]
fn display_name_prefers_nickname() {
    assert_eq!(
        display_name(Some(b"nick".to_vec()), b"user".to_vec()),
        b"nick".to_vec()
    );
    assert_eq!(display_name(None, b"user".to_vec()), b"user".to_vec());
}

#[test]
fn guild_prefers_reply_guild() {
    assert_eq!(
        resolve_guild(Some(b"g1".to_vec()), b"g2".to_vec()),
        b"g1".to_vec()
    );
    assert_eq!(resolve_guild(None, b"g2".to_vec()), b"g2".to_vec());
}
