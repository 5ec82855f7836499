use ringrtc_devices::cubeb_log::{
    cubeb_redaction_specs, do_cubeb_redactions, find_ending_whitespace, find_identifier,
    redact_outside, redact_parts, redact_under, RedactionSpec,
};
use ringrtc_devices::pattern::{find, BadPattern};
use ringrtc_devices::profile::{BuildProfile, Platform};
use ringrtc_devices::redaction::redact_for_logging;

/// What these tests are built for.
const BUILD: BuildProfile =
    BuildProfile { platform: Platform::Linux, debug_assertions: true, testing: true };

#[test]
fn redaction_tests() {
    assert_eq!(redact_for_logging(&BUILD, "0123456789"), "01...89");
    assert_eq!(redact_for_logging(&BUILD, "0123"), "0123");
    assert_eq!(redact_for_logging(&BUILD, "0"), "0");
    assert_eq!(redact_for_logging(&BUILD, "你好"), "你..."); // ni hao (hello)
    assert_eq!(redact_for_logging(&BUILD, "你"), "你");
    // This is not necessarily behavior we want to enforce, but the test is here for
    // documentation of the limitations of this implementation:
    // the string y̆, which looks like one character to humans, is represented as
    // two Unicode Scalar Values: y and \u{0306}.
    // Rust's standard library does not provide functionality to iterate by "grapheme clusters."
    //
    // While we could get such a library from crates.io, it would require us to build in a
    // (large) unicode table to the compiled library.
    assert_eq!(redact_for_logging(&BUILD, "y̆ is from rust str docs"), "y...");
}

#[test]
fn redaction_regex_tests() {
    let re1 = RedactionSpec {
        first_to_keep: r"Device \d+ \(".to_string(),
        rest_to_keep: vec![r"\) has \d+.*channels".to_string()],
    };

    assert_eq!(
        re1.redact_if_matching(
            &BUILD,
            "Device 12345 (My Super Sensitive Name) has 2 INPUT-channels".into(),
        ),
        "Device 12345 (My...me) has 2 INPUT-channels",
    );

    // Should only redact matching strings
    assert_eq!(
        re1.redact_if_matching(&BUILD, "Some other string with My Super Sensitive Name".into()),
        "Some other string with My Super Sensitive Name",
    );

    let re2 = RedactionSpec {
        first_to_keep: r"Found matching device for ".to_string(),
        rest_to_keep: vec![": ".to_string()],
    };
    assert_eq!(
        re2.redact_if_matching(
            &BUILD,
            "Found matching device for My Super Sensitive Name: My Super Sensitive Name".into(),
        ),
        "Found matching device for My...me: My...me",
    );

    assert_eq!(
        re2.redact_if_matching(
            &BUILD,
            "Found matching device for My Super Sensitive Name: My Other Sensitive Name".into(),
        ),
        "Found matching device for My...me: My...me",
    );

    let re3 = RedactionSpec {
        first_to_keep: r"collection: Audio device default changed, id = ".to_string(),
        // changed from actual regex
        rest_to_keep: vec![",$".to_string()],
    };
    assert_eq!(
        re3.redact_if_matching(
            &BUILD,
            // note that the comma at the end is not preserved
            "collection: Audio device default changed, id = TestOneTwo,".into(),
        ),
        // Note that there's no comma at the end
        "collection: Audio device default changed, id = Te...wo,",
    );

    assert_eq!(
        re3.redact_if_matching(
            &BUILD,
            " collection: Audio device default changed, id = TestOneTwo,".into(),
        ),
        " collection: Audio device default changed, id = Te...wo,",
    );

    let re4 = RedactionSpec {
        first_to_keep: r" is the sensitive part".to_string(),
        rest_to_keep: Vec::new(),
    };
    assert_eq!(
        re4.redact_if_matching(&BUILD, "Sensitive Name is the sensitive part".into()),
        "Se...me is the sensitive part",
    );
}

#[test]
fn redaction_regex_failure() {
    let re1 = RedactionSpec {
        first_to_keep: r"Device \d+ \(".to_string(),
        rest_to_keep: vec![
            // Deliberately missing a space before "has"
            r"\)has \d+.*channels".to_string(),
        ],
    };
    assert_eq!(
        re1.redact_if_matching(
            &BUILD,
            "Device 12345 (My Super Sensitive Name) has 2 INPUT-channels".into(),
        ),
        // We'll take what we know is safe and truncate the rest.
        "Device 12345 (My...ls",
    );
}

#[test]
fn redact_unicode() {
    let re1 = RedactionSpec {
        first_to_keep: r"endpoint: Audio device default changed flow=.* role=.* new_device_id=".to_string(),
        rest_to_keep: Vec::new(),
    };

    // Should not affect the y̆
    assert_eq!(
        re1.redact_if_matching(
            &BUILD,
            "endpoint: Audio device default changed flow=y̆ is from rust str docs role=console new_device_id=Sensitive ASCII".into()
        ),
       "endpoint: Audio device default changed flow=y̆ is from rust str docs role=console new_device_id=Se...II"
    );

    let re2 = RedactionSpec {
        first_to_keep: r"Found matching device for ".to_string(),
        rest_to_keep: vec![": ".to_string()],
    };
    // Presence of unicode should cause that string to be redacted more strictly
    assert_eq!(
        re2.redact_if_matching(
            &BUILD,
            "Found matching device for My é: My Other Sensitive Name".into(),
        ),
        "Found matching device for M...: My...me",
    );

    // Should only apply stricter redaction to the one string
    assert_eq!(
        re2.redact_if_matching(
            &BUILD,
            "Found matching device for Édouard Manet: My Other Sensitive Name".into(),
        ),
        "Found matching device for É...: My...me",
    );
}

// Makes sure that a "." doesn't lead to us cutting in the middle of a character boundary
#[test]
fn redact_regex_no_char_boundary_bug() {
    let re = RedactionSpec {
        first_to_keep: "A.".to_string(),
        rest_to_keep: Vec::new(),
    };
    assert_eq!(re.redact_if_matching(&BUILD, "A你好你好".into()), "A你好...");
}

#[test]
fn redact_cubeb_strings() {
    assert_eq!(
        // This line shouldn't be redacted at all, so it shouldn't be affected by the grapheme cluster issue
        do_cubeb_redactions(&BUILD, "file_name.ext:67:Some Line Not Matching With Unicode y̆ 你好")
            .unwrap(),
        "file_name.ext:67:Some Line Not Matching With Unicode y̆ 你好",
    );

    assert_eq!(
        do_cubeb_redactions(&BUILD, "file_name.ext:67: Some Line Not Matching With Unicode y̆ 你好")
            .unwrap(),
        "file_name.ext:67: Some Line Not Matching With Unicode y̆ 你好",
    );

    assert_eq!(
        do_cubeb_redactions(
            &BUILD,
            "cubeb_wasapi.cpp:2614:Found matching device for Friendly Name: Other Friendly Name"
        )
        .unwrap(),
        "cubeb_wasapi.cpp:2614:Found matching device for Fr...me: Ot...me"
    );

    assert_eq!(
        do_cubeb_redactions(
            &BUILD,
            &[
                r"C:\a\ringrtc\ringrtc\target\x86_64-pc-windows-msvc\release\build\cubeb-sys-5b33f650b6d0fb14",
                r"\out\libcubeb\src\cubeb_wasapi.cpp:663:collection: Audio device default changed, ",
                "id = {0.0.0.00000000}.{c9ddf6ba-2fad-406b-bddf-bded5b431800}"
            ].concat()
        ).unwrap(),
        [
            r"C:\a\ringrtc\ringrtc\target\x86_64-pc-windows-msvc\release\build\cubeb-sys-5b33f650b6d0fb14",
            r"\out\libcubeb\src\cubeb_wasapi.cpp:663:collection: Audio device default changed, id = {0...0}"
        ].concat()
    );

    assert_eq!(
        do_cubeb_redactions(&BUILD, &[
            "cubeb_wasapi.cpp:663:collection: Audio device default changed, ",
            "id = {0.0.0.00000000}.{c9ddf6ba-2fad-406b-bddf-bded5b431800}",
        ].concat())
        .unwrap(),
        "cubeb_wasapi.cpp:663:collection: Audio device default changed, id = {0...0}",
    );

    assert_eq!(
        do_cubeb_redactions(&BUILD, &[
            "cubeb_wasapi.cpp:690:collection: Audio device state changed, ",
            "id = {0.0.0.00000000}.{c9ddf6ba-2fad-406b-bddf-bded5b431800}, state = 4.",
        ].concat())
        .unwrap(),
        "cubeb_wasapi.cpp:690:collection: Audio device state changed, id = {0...0}, state = 4.",
    );

    // This line is cut off early, but that should still work.
    assert_eq!(
        do_cubeb_redactions(
            &BUILD,
            "cubeb_wasapi.cpp:690:collection: Audio device state changed, id = {0.0.0.00000000}.{c9ddf6ba-"
        ).unwrap(),
        "cubeb_wasapi.cpp:690:collection: Audio device state changed, id = {0...a-"
    );

    assert_eq!(
        do_cubeb_redactions(&BUILD, &[
            "cubeb_wasapi.cpp:777:endpoint: Audio device default changed flow=1 role=2 ",
            "new_device_id={0.0.0.00000000}.{c9ddf6ba-2fad-406b-bddf-bded5b431800}.",
        ].concat())
        .unwrap(),
        "cubeb_wasapi.cpp:777:endpoint: Audio device default changed flow=1 role=2 new_device_id={0...0}.",
    );

    assert_eq!(
        do_cubeb_redactions(
            &BUILD,
            "mod.rs:2123: Device 92 (MacBook Pro Microphone) has 1 INPUT-channels",
        )
        .unwrap(),
        "mod.rs:2123: Device 92 (Ma...ne) has 1 INPUT-channels",
    );

    assert_eq!(
        do_cubeb_redactions(
            &BUILD,
            "mod.rs:2128: Cannot get the channel count for device 92 (MacBook Pro Microphone). Ignored."
        ).unwrap(),
        "mod.rs:2128: Cannot get the channel count for device 92 (Ma...ne). Ignored."
    );

    // If we see a cut-off line in the middle of a regex that should truncate the rest of the line
    assert_eq!(
        do_cubeb_redactions(
            &BUILD,
            "mod.rs:2128: Cannot get the channel count for device 92 (MacBook Pro Microphone). Igno"
        ).unwrap(),
        "mod.rs:2128: Cannot get the channel count for device 92 (Ma...no"
    );

    assert_eq!(
        do_cubeb_redactions(
            &BUILD,
            &[
                r#"mod.rs:3585: Output uid="BuiltInHeadphoneOutputDevice", model_uid="Codec Output", "#,
                r#"transport_type="bltn", source="hdpn", source_name="External Headphones", "#,
                r#"name="External Headphones", manufacturer="Apple Inc.""#
            ].concat()
        ).unwrap(),
       [
           r#"mod.rs:3585: Output uid="Bu...ce", model_uid="Co...ut", transport_type="bltn", "#,
           r#"source="hdpn", source_name="Ex...es", name="Ex...es", manufacturer="Apple Inc.""#
       ].concat()
    );

    assert_eq!(
        do_cubeb_redactions(
            &BUILD,
            &[
                "context.rs:137: PulseAudio server info: server_name=PulseAudio (on PipeWire 1.4.2), ",
                "server_version=15.0.0, default_sink_name=alsa_output.pci-0000_64_00.6.HiFi__Headphones__sink, ",
                "default_source_name=alsa_input.pci-0000_64_00.6.HiFi__Mic1__source"
            ].concat()
        ).unwrap(),
        [
            "context.rs:137: PulseAudio server info: server_name=PulseAudio (on PipeWire 1.4.2), ",
            "server_version=15.0.0, default_sink_name=al...nk, default_source_name=al...ce"
        ].concat()
    );

    assert_eq!(
        do_cubeb_redactions(
            &BUILD,
            &[
                "context.rs:137: PulseAudio server info: server_name=PulseAudio (on PipeWire 1.4.2), ",
                "server_version=15.0.0, default_sink_name=alsa_output.pci-0000_64_00.6.HiFi__Headphones__sink, ",
                "default_source_name=alsa_input.pci-0000_64_00.6.HiFi__Mic1__source\n"
            ].concat()
        ).unwrap(),
        [
            "context.rs:137: PulseAudio server info: server_name=PulseAudio (on PipeWire 1.4.2), ",
            "server_version=15.0.0, default_sink_name=al...nk, default_source_name=al...ce\n"
        ].concat()
    );

    assert_eq!(
        do_cubeb_redactions(
            &BUILD,
            &[
                "context.rs:120: PulseAudio default sink info: name=alsa_output.pci-0000_64_00.6.HiFi__Speaker__sink, ",
                "description=Ryzen HD Audio Controller Speaker, driver=PipeWire, latency=0"
            ].concat()
        ).unwrap(),
        "context.rs:120: PulseAudio default sink info: name=al...nk, description=Ry...er, driver=PipeWire, latency=0"
    );
}

#[test]
fn cubeb_prefix() {
    assert_eq!(
        do_cubeb_redactions(&BUILD, "unexpected format: unexpected string").unwrap(),
        "BAD CUBEB FORMAT: un...ng",
    );
    assert_eq!(
        do_cubeb_redactions(&BUILD, "plausible_change.txt: 123: unexpected string").unwrap(),
        "BAD CUBEB FORMAT: pl...ng",
    );

    // No space
    assert_eq!(
        do_cubeb_redactions(
            &BUILD,
            "file_name_unimportant.extension_too:0000:Found matching device for Friendly Name: Other Friendly Name"
        ).unwrap(),
        "file_name_unimportant.extension_too:0000:Found matching device for Fr...me: Ot...me"
    );

    // Lots of extra space
    assert_eq!(
        do_cubeb_redactions(
            &BUILD,
            &[
            "context.rs:120:                  \tPulseAudio default sink info: name=alsa_output.pci-0000_64_00.6.HiFi__Speaker__sink, ",
            "description=Ryzen HD Audio Controller Speaker, driver=PipeWire, latency=0"
            ].concat()
        ).unwrap(),
        [
        "context.rs:120:                  \tPulseAudio default sink info: name=al...nk, ",
        "description=Ry...er, driver=PipeWire, latency=0"
        ].concat()
    );
}

#[test]
fn cubeb_spammy_line() {
    assert_eq!(
        do_cubeb_redactions(&BUILD, &[
            "cubeb.c:727:DeviceID: \"BuiltInSpeakerDevice\"\n\tName:\t",
            "\"MacBook Pro Speakers\"\n\tGroup:\t\"builtin-internal-mic|spk\"\n\t",
            "Vendor:\t\"Apple Inc.\"\n\tType:\toutput\n\tState:\tenabled\n\tMaximum channels:\t2",
            "\n\tFormat:\tS16LE S16BE F32LE F32BE (0x3030) (default: F32LE)\n\tRate:\t[44100",
        ].concat()),
        None,
    );
}

fn release(platform: Platform) -> BuildProfile {
    BuildProfile { platform, debug_assertions: false, testing: false }
}

const LOCAL: BuildProfile =
    BuildProfile { platform: Platform::Linux, debug_assertions: true, testing: false };

#[test]
fn redaction_lengths() {
    assert_eq!(redact_for_logging(&BUILD, ""), "");
    assert_eq!(redact_for_logging(&BUILD, "01234"), "01...34");
    assert_eq!(redact_for_logging(&BUILD, "a\u{80}"), "a...");
    assert_eq!(redact_for_logging(&BUILD, "\u{7f}\u{7f}\u{7f}\u{7f}\u{7f}x"), "\u{7f}\u{7f}...\u{7f}x");
    for text in ["0123456789", "0123", "你好", "y你", ""] {
        let once = redact_for_logging(&BUILD, text);
        assert_eq!(redact_for_logging(&BUILD, &once), once);
    }
}

#[test]
fn only_local_builds_log_in_full() {
    assert_eq!(redact_for_logging(&LOCAL, "0123456789"), "0123456789");
    assert_eq!(redact_for_logging(&release(Platform::MacOs), "0123456789"), "01...89");
    let line = "mod.rs:2123: Device 92 (MacBook Pro Microphone) has 1 INPUT-channels\n";
    let mac = BuildProfile { platform: Platform::MacOs, debug_assertions: true, testing: false };
    assert_eq!(do_cubeb_redactions(&mac, line).unwrap(), line);
    assert_eq!(
        do_cubeb_redactions(&mac, "no origin").unwrap(),
        "BAD CUBEB FORMAT: no origin"
    );
}

#[test]
fn a_platform_applies_its_own_rules() {
    let windows = "cubeb_wasapi.cpp:2614:Found matching device for Friendly Name: Other Name";
    let mac = "mod.rs:2123: Device 92 (MacBook Pro Microphone) has 1 INPUT-channels";
    let linux = "context.rs:120: PulseAudio default sink info: name=alsa_output, description=Ryzen, driver=P, latency=0";
    let on = |platform: Platform, line: &str| do_cubeb_redactions(&release(platform), line).unwrap();
    assert_eq!(
        on(Platform::Windows, windows),
        "cubeb_wasapi.cpp:2614:Found matching device for Fr...me: Ot...me"
    );
    assert_eq!(on(Platform::Windows, mac), mac);
    assert_eq!(on(Platform::Windows, linux), linux);
    assert_eq!(on(Platform::MacOs, windows), windows);
    assert_eq!(
        on(Platform::MacOs, mac),
        "mod.rs:2123: Device 92 (Ma...ne) has 1 INPUT-channels"
    );
    assert_eq!(on(Platform::Linux, mac), mac);
    assert_eq!(
        on(Platform::Linux, linux),
        "context.rs:120: PulseAudio default sink info: name=al...ut, description=Ry...en, driver=P, latency=0"
    );
    assert_eq!(cubeb_redaction_specs(&BUILD).len(), 9);
    assert_eq!(cubeb_redaction_specs(&release(Platform::Windows)).len(), 4);
    assert_eq!(cubeb_redaction_specs(&release(Platform::MacOs)).len(), 3);
    assert_eq!(cubeb_redaction_specs(&release(Platform::Linux)).len(), 2);
}

#[test]
fn every_rule_compiles() {
    for spec in cubeb_redaction_specs(&BUILD) {
        assert!(find(&spec.first_to_keep, "").is_ok());
        for pattern in &spec.rest_to_keep {
            assert!(find(pattern, "").is_ok());
        }
    }
}

#[test]
fn matches_are_leftmost_byte_offsets() {
    assert_eq!(find("foo[0-9]+", "zzzfoo12345zzz"), Ok(Some((3, 11))));
    assert_eq!(find("好", "你好好"), Ok(Some((3, 6))));
    assert_eq!(find("x*", "你好"), Ok(Some((0, 0))));
    assert_eq!(find("x", "你好"), Ok(None));
    assert_eq!(find("(", "("), Err(BadPattern));
}

#[test]
fn a_rule_that_does_not_compile_keeps_nothing() {
    let spec = RedactionSpec { first_to_keep: "(".to_string(), rest_to_keep: vec![] };
    assert_eq!(spec.find_segments("Sensitive Name"), Some(vec![]));
    assert_eq!(spec.redact_if_matching(&BUILD, "Sensitive Name".into()), "Se...me");
    let spec =
        RedactionSpec { first_to_keep: "id=".to_string(), rest_to_keep: vec!["(".to_string()] };
    assert_eq!(spec.redact_if_matching(&BUILD, "id=Sensitive (".into()), "id=Se... (");
}

#[test]
fn segments_are_found_one_after_the_other() {
    let spec = RedactionSpec {
        first_to_keep: "a=".to_string(),
        rest_to_keep: vec![",b=".to_string(), ",c=".to_string(), ",d=".to_string()],
    };
    // The third part is sought after the second, and not found there.
    assert_eq!(spec.find_segments("a=,c=1,b=2"), Some(vec![(0, 2), (6, 9)]));
    assert_eq!(spec.find_segments("b=1"), None);
    assert_eq!(spec.find_segments("xa=1,b=2,c=3,d=4"), Some(vec![(1, 3), (4, 7), (8, 11), (12, 15)]));
}

#[test]
fn all_but_the_segments_is_redacted() {
    assert_eq!(redact_outside(&BUILD, "0123456789", &vec![]), "01...89");
    assert_eq!(
        redact_outside(&BUILD, "secret name=other name", &vec![(6, 12)]),
        "se...et name=ot...me"
    );
    assert_eq!(redact_outside(&BUILD, "你好=x", &vec![(6, 7), (7, 8)]), "你...=x");
    assert_eq!(redact_outside(&LOCAL, "0123456789", &vec![(3, 4)]), "0123456789");
    assert_eq!(redact_outside(&BUILD, "", &vec![(0, 0)]), "");
}

#[test]
fn parts_of_a_line_are_put_together() {
    let none: Vec<RedactionSpec> = Vec::new();
    assert_eq!(redact_parts(&BUILD, &none, "x f:1: body \n", Some((2, 7)), 11), "f:1: body \n");
    assert_eq!(redact_parts(&BUILD, &none, "some body", None, 9), "BAD CUBEB FORMAT: so...dy");
    let specs = vec![
        RedactionSpec { first_to_keep: "id=".to_string(), rest_to_keep: vec![] },
        RedactionSpec { first_to_keep: "never".to_string(), rest_to_keep: vec![] },
    ];
    assert_eq!(redact_parts(&BUILD, &specs, "f:1:id=012345 ", Some((0, 4)), 13), "f:1:id=01...45 ");
    assert_eq!(redact_under(&BUILD, &specs, "id=012345"), "id=01...45");
    assert_eq!(redact_under(&BUILD, &specs, "other"), "other");
}

#[test]
fn later_rules_see_what_earlier_ones_left() {
    let specs = vec![
        RedactionSpec { first_to_keep: "a=".to_string(), rest_to_keep: vec![] },
        RedactionSpec { first_to_keep: r"a=01\.\.\.".to_string(), rest_to_keep: vec![] },
    ];
    assert_eq!(redact_under(&BUILD, &specs, "a=0123456789"), "a=01...89");
    assert_eq!(redact_under(&BUILD, &specs, "a=0123"), "a=0123");
}

#[test]
fn lines_are_taken_apart() {
    assert_eq!(find_identifier("pre file.rs:12:  body"), Some((4, 17)));
    assert_eq!(find_identifier("no identifier"), None);
    assert_eq!(find_ending_whitespace("body \t\n"), 4);
    assert_eq!(find_ending_whitespace("bo dy"), 5);
    assert_eq!(find_ending_whitespace(""), 0);
    // What stands before the identifier is not logged.
    assert_eq!(do_cubeb_redactions(&BUILD, "pre file.rs:12:  body \n").unwrap(), "file.rs:12:  body \n");
}

#[test]
fn lines_without_a_body_are_left() {
    for build in [BUILD, LOCAL, release(Platform::Windows)] {
        for line in ["a.c:1:\n", "file.rs:12:  ", "file.rs:12:", "a.c:1: \t\r\n", "a.c:1:\u{3000}"] {
            assert_eq!(do_cubeb_redactions(&build, line).unwrap(), line);
        }
        assert_eq!(do_cubeb_redactions(&build, "pre a.c:1: \n").unwrap(), "a.c:1: \n");
        assert_eq!(do_cubeb_redactions(&build, "file.rs:12: x\n").unwrap(), "file.rs:12: x\n");
        assert_eq!(do_cubeb_redactions(&build, "DeviceID Name:1: "), None);
        assert_eq!(do_cubeb_redactions(&build, "  ").unwrap(), "BAD CUBEB FORMAT:   ");
    }
}

#[test]
fn both_words_make_a_device_list() {
    assert_eq!(do_cubeb_redactions(&BUILD, "a:1:DeviceID").unwrap(), "a:1:DeviceID");
    assert_eq!(do_cubeb_redactions(&BUILD, "a:1:Name").unwrap(), "a:1:Name");
    assert_eq!(do_cubeb_redactions(&BUILD, "a:1:NameDeviceID"), None);
    assert_eq!(do_cubeb_redactions(&BUILD, "a:1:DeviceId Name").unwrap(), "a:1:DeviceId Name");
}

#[test]
fn lines_keep_origin_and_ending() {
    let line = do_cubeb_redactions(
        &release(Platform::Windows),
        "at a.cpp:1:\tFound matching device for Friendly Name: Other Friendly Name \n",
    )
    .unwrap();
    assert_eq!(line, "a.cpp:1:\tFound matching device for Fr...me: Ot...me \n");
}
