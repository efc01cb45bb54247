use apogee::device::{migrate_mpv_device, DeviceDescriptor, DeviceError, DeviceRequest};

fn descriptor(id: &str, name: &str) -> DeviceDescriptor {
    DeviceDescriptor {
        id: id.to_string(),
        name: name.to_string(),
        backend: "Alsa".to_string(),
        is_default: false,
    }
}

#[test]
fn an_absent_or_blank_setting_follows_the_system_default() {
    for stored in [None, Some(""), Some("   ")] {
        let (request, note) = migrate_mpv_device(stored, &[]);
        assert_eq!(request, DeviceRequest::SystemDefault, "{stored:?}");
        assert!(note.is_none(), "{stored:?} should not warn");
    }
}

#[test]
fn mpv_default_spellings_map_to_the_system_default_without_warning() {
    let available = [descriptor("alsa:default", "Default ALSA Output")];
    for stored in ["auto", "default", "alsa/default", "pulse/default"] {
        let (request, note) = migrate_mpv_device(Some(stored), &available);
        assert_eq!(request, DeviceRequest::SystemDefault, "{stored}");
        assert!(
            note.is_none(),
            "{stored} is a normal default, not a failure"
        );
    }
}

#[test]
fn a_uniquely_matching_device_is_migrated() {
    let available = [
        descriptor("alsa:pipewire", "PipeWire Sound Server"),
        descriptor("alsa:null", "Discard all samples"),
    ];
    let (request, note) = migrate_mpv_device(Some("alsa/pipewire"), &available);
    assert_eq!(request, DeviceRequest::Specific("alsa:pipewire".into()));
    assert!(note.is_none(), "a confident match needs no explanation");
}

#[test]
fn an_unmatched_device_falls_back_and_explains_itself() {
    let available = [descriptor("alsa:pipewire", "PipeWire Sound Server")];
    let (request, note) = migrate_mpv_device(Some("wasapi/{some-guid}"), &available);
    assert_eq!(
        request,
        DeviceRequest::SystemDefault,
        "silence would be worse than the default"
    );
    let note = note.expect("the user must be told why their choice was dropped");
    assert!(
        note.contains("wasapi"),
        "the message should name the stored device: {note}"
    );
}

#[test]
fn an_ambiguous_match_refuses_to_guess() {
    let available = [
        descriptor("alsa:usb-1", "USB Audio"),
        descriptor("alsa:usb-2", "USB Audio"),
    ];
    let (request, note) = migrate_mpv_device(Some("alsa/USB Audio"), &available);
    assert_eq!(request, DeviceRequest::SystemDefault);
    assert!(note.is_some_and(|n| n.contains("more than one")));
}

#[test]
fn migration_ignores_punctuation_and_case_differences() {
    let available = [descriptor("alsa:pipewire", "PipeWire Sound Server")];
    let (request, _) = migrate_mpv_device(Some("pulse/PipeWire_Sound-Server"), &available);
    assert_eq!(request, DeviceRequest::Specific("alsa:pipewire".into()));
}

#[test]
fn the_unmatched_notice_reads_in_full() {
    let (_, note) = migrate_mpv_device(Some("  wasapi/{x}  "), &[]);
    assert_eq!(
        note.as_deref(),
        Some("Your saved audio device (wasapi/{x}) could not be matched, so the system default is being used.")
    );
}

#[test]
fn device_errors_read_as_documented() {
    assert_eq!(
        DeviceError::NoOutputDevice.to_string(),
        "no audio output device is available"
    );
    assert_eq!(
        DeviceError::Backend("busy".to_string()).to_string(),
        "audio backend error: busy"
    );
    assert_eq!(DeviceRequest::default(), DeviceRequest::SystemDefault);
}
