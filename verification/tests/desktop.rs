use colorlaunch::desktop::{
    is_descriptor, is_vector_icon, parse_descriptor, ApplicationEntry, Descriptor,
    DescriptorError, EntryKind,
};

fn application(icon: Option<&str>) -> ApplicationEntry {
    ApplicationEntry {
        id: "app.desktop".to_string(),
        no_display: false,
        hidden: false,
        kind: EntryKind::Application,
        icon: icon.map(|path| path.to_string()),
        exec_template: Some("app %U".to_string()),
    }
}

#[test]
fn parser_reads_the_fields_of_an_application() {
    let text = "[Desktop Entry]\nType=Application\nName=Firefox\nExec=firefox %U\nIcon=firefox\nNoDisplay=false\nHidden=true\n";
    let descriptor = parse_descriptor(text).unwrap();
    assert_eq!(descriptor.kind, EntryKind::Application);
    assert_eq!(descriptor.exec_template, Some("firefox %U".to_string()));
    assert_eq!(descriptor.icon, Some("firefox".to_string()));
    assert_eq!(descriptor.no_display, Some(false));
    assert_eq!(descriptor.hidden, Some(true));
}

#[test]
fn parser_leaves_absent_fields_unset() {
    let text = "[Desktop Entry]\nType=Application\nName=Bare\n";
    let descriptor = parse_descriptor(text).unwrap();
    assert_eq!(descriptor.kind, EntryKind::Application);
    assert_eq!(descriptor.exec_template, None);
    assert_eq!(descriptor.icon, None);
    assert_eq!(descriptor.no_display, None);
    assert_eq!(descriptor.hidden, None);
}

#[test]
fn parser_tells_the_kinds_apart() {
    let link = parse_descriptor("[Desktop Entry]\nType=Link\nName=Home\nURL=https://example.org\n");
    assert_eq!(link.unwrap().kind, EntryKind::Link);
    let directory = parse_descriptor("[Desktop Entry]\nType=Directory\nName=Games\n");
    assert_eq!(directory.unwrap().kind, EntryKind::Directory);
    let other = parse_descriptor("[Desktop Entry]\nType=Service\nName=Odd\nExec=odd\n").unwrap();
    assert_eq!(other.kind, EntryKind::Unknown);
    assert_eq!(other.exec_template, None);
}

#[test]
fn parser_rejects_a_file_without_type() {
    let result = parse_descriptor("[Desktop Entry]\nName=Nameless\n");
    assert_eq!(result.err(), Some(DescriptorError::Malformed));
}

#[test]
fn parser_rejects_a_repeated_key() {
    let text = "[Desktop Entry]\nType=Application\nName=Twice\nExec=a\nExec=b\n";
    assert_eq!(parse_descriptor(text).err(), Some(DescriptorError::Malformed));
}

#[test]
fn parser_rejects_a_flag_that_is_no_boolean() {
    let text = "[Desktop Entry]\nType=Application\nName=Flag\nNoDisplay=maybe\n";
    assert_eq!(parse_descriptor(text).err(), Some(DescriptorError::Malformed));
}

#[test]
fn descriptor_extension_is_recognized() {
    assert!(is_descriptor("/usr/share/applications/firefox.desktop"));
    assert!(is_descriptor("a.desktop"));
    assert!(!is_descriptor("firefox.desktop.bak"));
    assert!(!is_descriptor("firefox.Desktop"));
    assert!(!is_descriptor("desktop"));
    assert!(!is_descriptor("mimeinfo.cache"));
}

#[test]
fn file_named_like_the_extension_alone_has_none() {
    assert!(!is_descriptor(".desktop"));
    assert!(!is_descriptor("/usr/share/applications/.desktop"));
    assert!(!is_vector_icon(".svg"));
    assert!(!is_vector_icon("icons/.svg"));
}

#[test]
fn vector_icons_are_recognized() {
    assert!(is_vector_icon("/usr/share/icons/hicolor/scalable/apps/firefox.svg"));
    assert!(!is_vector_icon("/usr/share/icons/hicolor/48x48/apps/firefox.png"));
    assert!(!is_vector_icon("firefox.svgz"));
    assert!(!is_vector_icon("svg"));
    assert!(!is_vector_icon(""));
}

#[test]
fn visible_application_with_raster_icon_is_eligible() {
    assert!(application(Some("/icons/app.png")).is_eligible());
}

#[test]
fn no_display_entry_is_not_eligible() {
    let mut entry = application(Some("/icons/app.png"));
    entry.no_display = true;
    assert!(!entry.is_eligible());
}

#[test]
fn hidden_entry_is_not_eligible() {
    let mut entry = application(Some("/icons/app.png"));
    entry.hidden = true;
    assert!(!entry.is_eligible());
}

#[test]
fn entry_of_another_kind_is_not_eligible() {
    for kind in [EntryKind::Link, EntryKind::Directory, EntryKind::Unknown] {
        let mut entry = application(Some("/icons/app.png"));
        entry.kind = kind;
        assert!(!entry.is_eligible());
    }
}

#[test]
fn entry_without_icon_is_not_eligible() {
    assert!(!application(None).is_eligible());
}

#[test]
fn entry_with_vector_icon_is_not_eligible() {
    assert!(!application(Some("/icons/app.svg")).is_eligible());
}

#[test]
fn descriptor_names_icon_only_if_visible_application() {
    let base = Descriptor {
        no_display: None,
        hidden: Some(false),
        kind: EntryKind::Application,
        icon: Some("firefox".to_string()),
        exec_template: None,
    };
    assert!(base.names_icon());
    assert!(!Descriptor { no_display: Some(true), ..base.clone() }.names_icon());
    assert!(!Descriptor { hidden: Some(true), ..base.clone() }.names_icon());
    assert!(!Descriptor { kind: EntryKind::Link, ..base.clone() }.names_icon());
    assert!(!Descriptor { icon: None, ..base.clone() }.names_icon());
}

#[test]
fn entry_takes_flags_and_template_from_descriptor() {
    let descriptor = Descriptor {
        no_display: Some(true),
        hidden: None,
        kind: EntryKind::Application,
        icon: Some("gimp".to_string()),
        exec_template: Some("gimp %U".to_string()),
    };
    let entry = ApplicationEntry::from_descriptor(
        "gimp.desktop".to_string(),
        descriptor,
        Some("/icons/gimp.png".to_string()),
    );
    assert_eq!(entry.id, "gimp.desktop");
    assert!(entry.no_display);
    assert!(!entry.hidden);
    assert_eq!(entry.kind, EntryKind::Application);
    assert_eq!(entry.icon, Some("/icons/gimp.png".to_string()));
    assert_eq!(entry.exec_template, Some("gimp %U".to_string()));
}

#[test]
fn entry_has_no_icon_file_where_descriptor_names_none() {
    let descriptor = Descriptor {
        no_display: None,
        hidden: None,
        kind: EntryKind::Application,
        icon: None,
        exec_template: None,
    };
    let entry = ApplicationEntry::from_descriptor(
        "x.desktop".to_string(),
        descriptor,
        Some("/icons/stray.png".to_string()),
    );
    assert_eq!(entry.icon, None);
    assert!(!entry.is_eligible());
}

#[test]
fn parsed_descriptor_becomes_an_eligible_entry() {
    let text = "[Desktop Entry]\nType=Application\nName=Calc\nExec=calc\nIcon=calc\n";
    let descriptor = parse_descriptor(text).unwrap();
    assert!(descriptor.names_icon());
    let entry = ApplicationEntry::from_descriptor(
        "calc.desktop".to_string(),
        descriptor,
        Some("/usr/share/icons/calc.png".to_string()),
    );
    assert!(entry.is_eligible());
}
