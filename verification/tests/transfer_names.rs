use filedrop::names::{
    destination_candidate, portable_file_name, temporary_file_name, unique_destination,
    validate_file_name, DestinationStep, ReservedNames,
};

#[test]
fn unsafe_file_names_are_rejected() {
    assert!(validate_file_name("../secret.txt").is_err());
    assert!(validate_file_name("folder\\secret.txt").is_err());
    assert!(validate_file_name("safe file.txt").is_ok());
}

#[test]
fn file_names_are_portable_to_windows() {
    assert_eq!(
        portable_file_name("report:final?.txt").unwrap(),
        "report_final_.txt"
    );
    assert_eq!(portable_file_name("CON.txt").unwrap(), "_CON.txt");
    assert_eq!(portable_file_name("photo. ").unwrap(), "photo");
}

/// Walks the copy numbers as a receiver does, with `existing` standing for
/// the files already in the download directory.
fn pick_destination(file_name: &str, existing: &[&str], reserved: &mut ReservedNames) -> Result<String, String> {
    let portable = portable_file_name(file_name)?;
    let mut copy = 0u32;
    loop {
        let candidate = destination_candidate(&portable, copy);
        let exists = existing.contains(&candidate.as_str());
        match unique_destination(file_name, copy, exists, reserved)? {
            DestinationStep::Chosen(name) => return Ok(name),
            DestinationStep::TryNext(next) => copy = next,
            DestinationStep::Exhausted(message) => return Err(message),
        }
    }
}

#[test]
fn duplicate_names_are_not_overwritten() {
    let mut reserved = ReservedNames::new();
    let first = pick_destination("photo.png", &["photo.png"], &mut reserved).expect("first");
    let second = pick_destination("photo.png", &["photo.png"], &mut reserved).expect("second");
    assert_eq!(first, "photo (1).png");
    assert_eq!(second, "photo (2).png");
}

#[test]
fn unsafe_names_are_each_refused_with_the_same_message() {
    for name in ["", ".", "..", "a/b", "a\\b", "a\0b"] {
        assert_eq!(
            validate_file_name(name).unwrap_err(),
            "The transfer contains an unsafe file name"
        );
        assert_eq!(
            portable_file_name(name).unwrap_err(),
            "The transfer contains an unsafe file name"
        );
    }
    assert!(validate_file_name("...").is_ok());
    assert!(validate_file_name(".hidden").is_ok());
}

#[test]
fn portable_names_cover_controls_devices_and_empty_results() {
    assert_eq!(portable_file_name("a\u{7}b<c>|d*\"e").unwrap(), "a_b_c__d__e");
    assert_eq!(portable_file_name("...").unwrap(), "File");
    assert_eq!(portable_file_name(" . ").unwrap(), "File");
    assert_eq!(portable_file_name("com1.log").unwrap(), "_com1.log");
    assert_eq!(portable_file_name("LPT9").unwrap(), "_LPT9");
    assert_eq!(portable_file_name("COM0.txt").unwrap(), "COM0.txt");
    assert_eq!(portable_file_name("COM10.txt").unwrap(), "COM10.txt");
    assert_eq!(portable_file_name("aux").unwrap(), "_aux");
    assert_eq!(portable_file_name("nul.tar.gz").unwrap(), "nul.tar.gz");
    assert_eq!(portable_file_name(".con").unwrap(), ".con");
    assert_eq!(portable_file_name("résumé.pdf").unwrap(), "résumé.pdf");
}

#[test]
fn portable_names_are_safe() {
    for name in ["x. . ", "?", "CON", "\u{1}", "ok.txt", "a:b"] {
        let portable = portable_file_name(name).unwrap();
        assert!(validate_file_name(&portable).is_ok());
        assert!(!portable.ends_with('.') && !portable.ends_with(' '));
    }
}

#[test]
fn candidates_keep_the_extension() {
    assert_eq!(destination_candidate("photo.png", 0), "photo.png");
    assert_eq!(destination_candidate("photo.png", 12), "photo (12).png");
    assert_eq!(destination_candidate("README", 3), "README (3)");
    assert_eq!(destination_candidate(".profile", 1), ".profile (1)");
    assert_eq!(destination_candidate("a.tar.gz", 2), "a.tar (2).gz");
}

#[test]
fn reservations_are_not_handed_out_twice() {
    let mut reserved = ReservedNames::new();
    assert!(reserved.insert("a.txt".to_string()));
    assert!(!reserved.insert("a.txt".to_string()));
    assert!(reserved.contains("a.txt"));
    assert!(!reserved.contains("b.txt"));
    let chosen = pick_destination("a.txt", &[], &mut reserved).unwrap();
    assert_eq!(chosen, "a (1).txt");
}

#[test]
fn destinations_run_out_after_the_last_copy_number() {
    let mut reserved = ReservedNames::new();
    let step = unique_destination("x.txt", 9999, true, &mut reserved).unwrap();
    match step {
        DestinationStep::Exhausted(message) => {
            assert_eq!(message, "Could not choose a safe destination for x.txt")
        }
        _ => panic!("expected to give up"),
    }
    let step = unique_destination("x.txt", 5, true, &mut reserved).unwrap();
    assert!(matches!(step, DestinationStep::TryNext(6)));
}

#[test]
fn unsafe_names_get_no_destination() {
    let mut reserved = ReservedNames::new();
    for name in ["../secret.txt", "a/b", "..", ""] {
        match unique_destination(name, 0, false, &mut reserved) {
            Err(message) => assert_eq!(message, "The transfer contains an unsafe file name"),
            Ok(_) => panic!("an unsafe name got a destination"),
        }
    }
    assert!(!reserved.contains(""));
    assert!(!reserved.contains("secret.txt"));
    assert_eq!(pick_destination("a\\b", &[], &mut reserved), Err("The transfer contains an unsafe file name".to_string()));
}

#[test]
fn temporary_names_carry_transfer_and_index() {
    assert_eq!(temporary_file_name("abc", 7), ".filedrop-abc-7.part");
    assert_eq!(temporary_file_name("t", 0), ".filedrop-t-0.part");
}
