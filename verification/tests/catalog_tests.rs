use band_lighthshow::catalog::{Catalog, CatalogError, Frame, FrameFile, FrameSet, Op, Show, Wait};
use band_lighthshow::patterns::{Packet, DARK, FULL_RGB, WHITE};
use band_lighthshow::timing::SLP;

fn solid(name: &str, packet: Packet) -> (String, Packet) {
    (name.to_owned(), packet)
}

fn hold_show(key: char, name: &str, frame: &str) -> Show {
    Show {
        key,
        name: name.to_owned(),
        category: "Flashes & Solids".to_owned(),
        desc: String::new(),
        looping: false,
        program: vec![Op::Hold {
            frame: frame.to_owned(),
            wait: Wait::Named("slp".to_owned()),
        }],
    }
}

#[test]
fn reject_duplicate_hotkeys() {
    let frames = vec![solid("white", WHITE)];
    let err = Catalog::new(
        frames,
        vec![
            hold_show('w', "White A", "white"),
            hold_show('w', "White B", "white"),
        ],
    )
    .expect_err("duplicates");
    let msg = err.message();
    assert!(msg.contains("duplicate hotkey 'w'"), "{msg}");
    assert!(msg.contains("White A"), "{msg}");
    assert!(msg.contains("White B"), "{msg}");
}

#[test]
fn reject_unknown_frame_names() {
    let frames = vec![solid("white", WHITE)];
    let err = Catalog::new(frames, vec![hold_show('x', "Missing", "nope")])
        .expect_err("unknown frame");
    let msg = err.message();
    assert!(msg.contains("unknown frame `nope`"), "{msg}");
}

#[test]
fn duplicate_hotkey_message_is_exact() {
    let err = Catalog::new(
        vec![solid("white", WHITE)],
        vec![hold_show('w', "White A", "white"), hold_show('w', "White B", "white")],
    )
    .expect_err("duplicates");
    assert_eq!(
        err,
        CatalogError::DuplicateHotkey {
            key: 'w',
            first: "White A".to_owned(),
            second: "White B".to_owned(),
        }
    );
    assert_eq!(err.message(), "duplicate hotkey 'w': 'White A' and 'White B'");
}

#[test]
fn unknown_wait_name_in_a_show_is_rejected() {
    let mut show = hold_show('q', "Queer Wait", "white");
    show.program.push(Op::HoldWorking { wait: Wait::Named("soon".to_owned()) });
    let err = Catalog::new(vec![solid("white", WHITE)], vec![show]).expect_err("bad wait");
    assert_eq!(
        err,
        CatalogError::UnknownWaitName { show: "Queer Wait".to_owned(), name: "soon".to_owned() }
    );
    assert_eq!(err.message(), "show 'Queer Wait' has unknown wait name `soon`");
}

#[test]
fn first_fault_wins_show_by_show() {
    // the second show repeats a hotkey and also names a missing frame: the hotkey is checked first
    let err = Catalog::new(
        vec![solid("white", WHITE)],
        vec![hold_show('a', "One", "white"), hold_show('a', "Two", "gone")],
    )
    .expect_err("duplicate");
    assert!(matches!(err, CatalogError::DuplicateHotkey { .. }));
    // a missing frame is reported before an unknown wait in the same opcode
    let show = Show {
        key: 'z',
        name: "Both".to_owned(),
        category: String::new(),
        desc: String::new(),
        looping: false,
        program: vec![Op::Hold { frame: "gone".to_owned(), wait: Wait::Named("later".to_owned()) }],
    };
    let err = Catalog::new(vec![], vec![show]).expect_err("missing");
    assert_eq!(err.message(), "show 'Both' references unknown frame `gone`");
}

#[test]
fn valid_catalog_reads_back_what_it_was_given() {
    let catalog = Catalog::new(
        vec![solid("white", WHITE), solid("dark", DARK)],
        vec![hold_show('w', "White Flash", "white"), hold_show('d', "Dark", "dark")],
    )
    .expect("valid");
    assert_eq!(catalog.frame("white"), Some(&WHITE));
    assert_eq!(catalog.frame("dark"), Some(&DARK));
    assert_eq!(catalog.frame("full_rgb"), None);
    assert_eq!(catalog.show_for_key('w').map(|s| s.name.as_str()), Some("White Flash"));
    assert_eq!(catalog.show_for_key('d').map(|s| s.name.as_str()), Some("Dark"));
    assert!(catalog.show_for_key('x').is_none());
    assert_eq!(catalog.shows().len(), 2);
    assert!(!catalog.is_empty());
    assert!(Catalog::new(vec![], vec![]).expect("empty").is_empty());
    assert!(Catalog::default().is_empty());
}

#[test]
fn wait_duration_resolves_names_and_millis() {
    assert_eq!(Wait::Named("slp".to_owned()).duration().unwrap(), SLP);
    assert_eq!(Wait::Ms(40).duration().unwrap(), 40);
    let err = Wait::Named("never".to_owned()).duration().unwrap_err();
    assert_eq!(err, CatalogError::UnknownWait { name: "never".to_owned() });
    assert_eq!(err.message(), "unknown wait name `never`");
}

#[test]
fn frame_to_packet_requires_one_packet_of_bytes() {
    let frame = Frame { name: "white".to_owned(), rgb: WHITE.to_vec() };
    assert_eq!(frame.to_packet().unwrap(), WHITE);
    let short = Frame { name: "short".to_owned(), rgb: vec![1, 2, 3] };
    let err = short.to_packet().unwrap_err();
    assert_eq!(err, CatalogError::FrameLength { name: "short".to_owned(), len: 3 });
    assert_eq!(err.message(), "frame `short` has 3 bytes, expected 96");
    let long = Frame { name: "long".to_owned(), rgb: vec![0; 120] };
    assert_eq!(long.to_packet().unwrap_err().message(), "frame `long` has 120 bytes, expected 96");
}

#[test]
fn load_merges_frame_files_and_shows() {
    let files = vec![
        FrameFile::Single(Frame { name: "white".to_owned(), rgb: WHITE.to_vec() }),
        FrameFile::Multiple(FrameSet(vec![
            ("dark".to_owned(), DARK.to_vec()),
            ("full_rgb".to_owned(), FULL_RGB.to_vec()),
        ])),
    ];
    let catalog = Catalog::load(files, vec![hold_show('w', "White Flash", "white")]).expect("load");
    assert_eq!(catalog.frame("white"), Some(&WHITE));
    assert_eq!(catalog.frame("dark"), Some(&DARK));
    assert_eq!(catalog.frame("full_rgb"), Some(&FULL_RGB));
    assert_eq!(catalog.show_for_key('w').unwrap().name, "White Flash");
}

#[test]
fn load_rejects_duplicate_frames_and_bad_lengths() {
    let files = vec![
        FrameFile::Single(Frame { name: "white".to_owned(), rgb: WHITE.to_vec() }),
        FrameFile::Multiple(FrameSet(vec![("white".to_owned(), DARK.to_vec())])),
    ];
    let err = Catalog::load(files, vec![]).unwrap_err();
    assert_eq!(err, CatalogError::DuplicateFrame { name: "white".to_owned() });
    assert_eq!(err.message(), "duplicate frame name `white`");

    // a wrong length is reported before the name clash of the same entry
    let files = vec![
        FrameFile::Single(Frame { name: "white".to_owned(), rgb: WHITE.to_vec() }),
        FrameFile::Single(Frame { name: "white".to_owned(), rgb: vec![9; 4] }),
    ];
    let err = Catalog::load(files, vec![]).unwrap_err();
    assert_eq!(err, CatalogError::FrameLength { name: "white".to_owned(), len: 4 });

    // frames are fine, the show is not
    let files = vec![FrameFile::Single(Frame { name: "white".to_owned(), rgb: WHITE.to_vec() })];
    let err = Catalog::load(files, vec![hold_show('m', "Missing", "dark")]).unwrap_err();
    assert_eq!(err.message(), "show 'Missing' references unknown frame `dark`");
}
