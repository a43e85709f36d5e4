use bar_lyrics::options::{Control, SourceKind};
use bar_lyrics::source::{
    is_local_host, is_player, mpris_method, player_source, select_player, MprisEvent, PlayerOwners,
    RouterAction, SourceRouter,
};

#[test]
fn player_source_reads_the_bus_name() {
    assert!(player_source("org.mpris.MediaPlayer2.splayer_next") == Some(SourceKind::Splayer));
    assert!(player_source("org.mpris.MediaPlayer2.splayer_next.instance42") == Some(SourceKind::Splayer));
    assert!(player_source("org.mpris.MediaPlayer2.spotify").is_none());
    assert!(player_source("org.mpris.MediaPlayer2.splayer_nextx").is_none());
    assert!(player_source("splayer_next").is_none());
}

#[test]
fn select_player_refuses_ambiguity() {
    let names: Vec<String> = vec![
        "org.freedesktop.DBus".to_owned(),
        "org.mpris.MediaPlayer2.splayer_next".to_owned(),
        "org.mpris.MediaPlayer2.vlc".to_owned(),
    ];
    assert_eq!(
        select_player(&names, SourceKind::Splayer),
        Ok("org.mpris.MediaPlayer2.splayer_next".to_owned())
    );
    let none: Vec<String> = vec!["org.mpris.MediaPlayer2.vlc".to_owned()];
    assert_eq!(select_player(&none, SourceKind::Splayer), Err("no matching player".to_owned()));
    let two: Vec<String> = vec![
        "org.mpris.MediaPlayer2.splayer_next.a".to_owned(),
        "org.mpris.MediaPlayer2.splayer_next.b".to_owned(),
    ];
    assert_eq!(
        select_player(&two, SourceKind::Splayer),
        Err("multiple matching players; refusing ambiguous control".to_owned())
    );
}

#[test]
fn mpris_methods_for_commands() {
    assert_eq!(mpris_method(Control::Toggle), "PlayPause");
    assert_eq!(mpris_method(Control::Previous), "Previous");
    assert_eq!(mpris_method(Control::Play), "Play");
}

#[test]
fn local_hosts() {
    assert!(is_local_host("LocalHost", false));
    assert!(is_local_host("127.0.0.1", true));
    assert!(!is_local_host("example.org", false));
}

#[test]
fn router_opens_then_reconnects() {
    let mut router = SourceRouter::new(SourceKind::Splayer);
    assert_eq!(router.current(), Err("waiting for a supported player".to_owned()));
    let other = MprisEvent::Activity("org.mpris.MediaPlayer2.vlc".to_owned());
    assert_eq!(router.on_event(&other), None);
    let mine = MprisEvent::Activity("org.mpris.MediaPlayer2.splayer_next".to_owned());
    assert_eq!(router.on_event(&mine), Some(RouterAction::Open));
    router.opened();
    assert_eq!(router.current(), Ok(()));
    assert_eq!(router.on_event(&mine), Some(RouterAction::Reconnect));
    let unavailable = MprisEvent::Unavailable("no bus".to_owned());
    assert_eq!(router.on_event(&unavailable), Some(RouterAction::Reconnect));
}

#[test]
fn owners_follow_the_bus() {
    let mut owners = PlayerOwners::new();
    assert!(is_player("org.mpris.MediaPlayer2.x"));
    assert!(!owners.listed("org.freedesktop.Notifications", ":1.2"));
    assert!(owners.listed("org.mpris.MediaPlayer2.splayer_next", ":1.5"));
    assert!(owners.owner_changed("org.mpris.MediaPlayer2.vlc", ":1.9"));
    let none: Vec<String> = Vec::new();
    let keys = vec!["PlaybackStatus".to_owned()];
    assert_eq!(
        owners.properties_changed("org.mpris.MediaPlayer2.Player", &keys, &none, Some(":1.5".to_owned())),
        vec!["org.mpris.MediaPlayer2.splayer_next".to_owned()]
    );
    let volume = vec!["Volume".to_owned()];
    assert!(owners
        .properties_changed("org.mpris.MediaPlayer2.Player", &volume, &none, Some(":1.5".to_owned()))
        .is_empty());
    assert!(owners
        .properties_changed("org.mpris.MediaPlayer2.Player", &none, &vec!["Metadata".to_owned()], Some(":1.9".to_owned()))
        .len()
        == 1);
    assert!(!owners.owner_changed("org.mpris.MediaPlayer2.splayer_next", ""));
    assert!(owners
        .properties_changed("org.mpris.MediaPlayer2.Player", &keys, &none, Some(":1.5".to_owned()))
        .is_empty());
    assert!(owners.owner_changed("org.mpris.MediaPlayer2.vlc", ":1.5"));
    assert_eq!(
        owners.properties_changed("org.mpris.MediaPlayer2.Player", &keys, &none, Some(":1.5".to_owned())),
        vec!["org.mpris.MediaPlayer2.vlc".to_owned()]
    );
    assert_eq!(owners.entries.len(), 1);
}
