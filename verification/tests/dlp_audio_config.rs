use lyrica_sync::audio::{AudioFormat, AudioInfo, AudioStream};
use lyrica_sync::config::{
    get_backup_itunesdb, get_config_path, get_configs_dir, get_temp_dl_dir, get_temp_itunesdb,
    LyricaConfiguration, TabType, Theme,
};
use lyrica_sync::db::Track;
use lyrica_sync::dlp::{parse_download_item, parse_progress_object};

fn mk_audio(codec: &str) -> AudioInfo {
    AudioInfo {
        streams: vec![
            AudioStream {
                codec_name: "mjpeg".to_string(),
                sample_rate: None,
                channels: None,
                sample_fmt: None,
            },
            AudioStream {
                codec_name: codec.to_string(),
                sample_rate: Some("44100".to_string()),
                channels: Some(2),
                sample_fmt: None,
            },
        ],
        format: AudioFormat {
            duration: "215.37".to_string(),
            size: "7000000".to_string(),
            bit_rate: "256000".to_string(),
        },
    }
}

#[test]
fn item_progress_lines() {
    assert_eq!(
        parse_download_item("[download] Downloading item 3 of 10"),
        Some((3, 10))
    );
    assert_eq!(
        parse_download_item("noise [download] Downloading item 12 of 204 trailing"),
        Some((12, 204))
    );
    assert_eq!(parse_download_item("[download]   42.5% of 3.52MiB"), None);
    assert_eq!(parse_download_item("[download] Downloading item x of 10"), None);
    assert_eq!(parse_download_item(""), None);
}

#[test]
fn progress_object_lines() {
    let line = "{\"progress_percentage\":\" 42.5%\",\"progress_total\":\"3.52MiB\",\"speed\":\"1.2MiB/s\",\"eta\":\"00:03\"}";
    let p = parse_progress_object(line).unwrap();
    assert_eq!(p.progress_percentage, " 42.5%");
    assert_eq!(p.progress_total, "3.52MiB");
    assert_eq!(p.eta, "00:03");

    assert!(parse_progress_object("[download] whatever").is_none());
    assert!(parse_progress_object("{\"progress_percentage\":\"1\"}").is_none());
    assert!(parse_progress_object("").is_none());
}

#[test]
fn probe_fields_parse() {
    let a = mk_audio("mp3");
    let f = a.get_nice_object().unwrap();
    assert_eq!(f.sample_rate, 44100);
    assert_eq!(f.duration_ms, 215370);
    assert_eq!(f.bit_rate, 256000);
    assert_eq!(a.get_non_image_stream(), Some(1));
    assert_eq!(a.get_audio_extension(), "mp3");
    assert_eq!(a.get_audio_codec(), "MPEG audio file");
}

#[test]
fn codec_classification() {
    assert_eq!(mk_audio("aac").get_audio_extension(), "m4a");
    assert_eq!(mk_audio("alac").get_audio_extension(), "m4a");
    assert_eq!(mk_audio("pcm_s16le").get_audio_extension(), "wav");
    assert_eq!(mk_audio("aac").get_audio_codec(), "AAC audio file");
    assert_eq!(mk_audio("alac").get_audio_codec(), "Apple Lossless audio file");
    assert_eq!(mk_audio("pcm_s16le").get_audio_codec(), "WAV audio file");
}

#[test]
fn codec_fields_stamped_on_record() {
    let a = mk_audio("mp3");
    let mut t = Track {
        unique_id: 1,
        dbid: 2,
        filetype: 0,
        stars: 0,
        last_modified_time: 0,
        size: 0,
        length: 0,
        year: 0,
        bitrate: 0,
        sample_rate: 0,
        play_count: 0,
        bpm: 0,
        skip_count: 0,
        has_artwork: 0,
        artwork_size: 0,
        artwork_count: 0,
        media_type: 0,
        track_number: 0,
        total_tracks: 0,
        disc_number: 0,
        total_discs: 0,
        lyrics_flag: 0,
        gapless_album_flag: 0,
        gapless_track_flag: 0,
        title: String::new(),
        location: String::new(),
        album: String::new(),
        artist: String::new(),
        genre: String::new(),
        codec: String::new(),
    };
    a.modify_xtrack(&mut t);
    // The tag bytes of "MP3" padded with a zero byte, packed big-endian.
    assert_eq!(t.filetype, 0x4D503300);
    assert_eq!(t.codec, "MPEG audio file");
}

#[test]
fn probe_without_audio_stream_is_rejected() {
    let a = AudioInfo {
        streams: vec![AudioStream {
            codec_name: "mjpeg".to_string(),
            sample_rate: None,
            channels: None,
            sample_fmt: None,
        }],
        format: AudioFormat {
            duration: "1".to_string(),
            size: "1".to_string(),
            bit_rate: "1".to_string(),
        },
    };
    assert_eq!(a.get_non_image_stream(), None);
    assert!(a.get_nice_object().is_none());
}

#[test]
fn config_paths() {
    assert_eq!(get_configs_dir("/home/u"), "/home/u/.lyrica");
    assert_eq!(get_temp_dl_dir("/home/u"), "/home/u/.lyrica/tmp");
    assert_eq!(get_config_path("/home/u"), "/home/u/.lyrica/config.toml");
    assert_eq!(get_temp_itunesdb("/home/u"), "/home/u/.lyrica/idb");
    assert_eq!(
        get_backup_itunesdb("/home/u", 1700000000),
        "/home/u/.lyrica/backup/iTunesDB-1700000000"
    );
}

#[test]
fn default_configuration() {
    let c = LyricaConfiguration::default();
    assert_eq!(c.get_soundcloud().user_id, 0);
    assert_eq!(c.get_youtube().user_id, "");
    let t = Theme::default();
    assert_eq!(t.background(), 0x00D75FAF);
    assert_eq!(t.foreground(), u32::MAX);
}

#[test]
fn tab_indexing() {
    assert!(matches!(TabType::from(0), TabType::Youtube));
    assert!(matches!(TabType::from(1), TabType::Soundcloud));
    assert!(matches!(TabType::from(2), TabType::Playlists));
    assert!(matches!(TabType::from(-3), TabType::Playlists));
    assert_eq!(TabType::Youtube.title(), "YouTube");
    assert_eq!(TabType::Soundcloud.title(), "SoundCloud");
    assert_eq!(TabType::Playlists.title(), "Local Playlists");
}
