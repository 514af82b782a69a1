use ge_man_lib::error::TagKindError;
use ge_man_lib::tag::{TagKind, WineTagKind};

#[test]
fn wine() {
    let kind = TagKind::wine();
    assert_eq!(
        kind,
        TagKind::Wine {
            kind: WineTagKind::WineGe
        }
    )
}

#[test]
fn lol() {
    let kind = TagKind::lol();
    assert_eq!(
        kind,
        TagKind::Wine {
            kind: WineTagKind::LolWineGe
        }
    );
}

#[test]
fn values() {
    let values = TagKind::values();
    assert_eq!(
        values,
        vec![
            TagKind::Proton,
            TagKind::Wine {
                kind: WineTagKind::WineGe
            },
            TagKind::Wine {
                kind: WineTagKind::LolWineGe
            },
        ]
    );
}

#[test]
fn get_compatibility_tool_name_proton() {
    assert_eq!(TagKind::Proton.compatibility_tool_name(), "Proton GE");
}

#[test]
fn get_compatibility_tool_name_wine() {
    assert_eq!(TagKind::wine().compatibility_tool_name(), "Wine GE");
}

#[test]
fn get_compatibility_tool_name_lol() {
    assert_eq!(TagKind::lol().compatibility_tool_name(), "Wine GE (LoL)");
}

#[test]
fn get_type_name_proton() {
    assert_eq!(TagKind::Proton.str(), "PROTON");
}

#[test]
fn get_type_name_wine() {
    assert_eq!(TagKind::wine().str(), "WINE");
}

#[test]
fn get_type_name_lol() {
    assert_eq!(TagKind::lol().str(), "LOL_WINE");
}

#[test]
fn get_compatibility_tool_kind() {
    assert_eq!(TagKind::Proton.compatibility_tool_kind(), "Proton");
    assert_eq!(TagKind::wine().compatibility_tool_kind(), "Wine");
    assert_eq!(TagKind::lol().compatibility_tool_kind(), "Wine");
}

#[test]
fn from_str_reads_the_three_names() {
    assert_eq!(TagKind::from_str("PROTON"), Ok(TagKind::Proton));
    assert_eq!(TagKind::from_str("WINE"), Ok(TagKind::wine()));
    assert_eq!(TagKind::from_str("LOL_WINE"), Ok(TagKind::lol()));
}

#[test]
fn from_str_refuses_any_other_string() {
    assert_eq!(TagKind::from_str("unknown"), Err(TagKindError::UnknownString));
    assert_eq!(TagKind::from_str("proton"), Err(TagKindError::UnknownString));
    assert_eq!(TagKind::from_str("PROTON "), Err(TagKindError::UnknownString));
    assert_eq!(TagKind::from_str(""), Err(TagKindError::UnknownString));
    assert_eq!(TagKind::from_str("LOL"), Err(TagKindError::UnknownString));
}

#[test]
fn every_kind_is_found_again_under_its_name() {
    for kind in TagKind::values() {
        assert_eq!(TagKind::from_str(kind.str().as_str()), Ok(kind));
        assert_eq!(TagKind::try_from(kind.str()), Ok(kind));
    }
}

#[test]
fn try_from_reads_as_from_str_does() {
    assert_eq!(TagKind::try_from("PROTON"), Ok(TagKind::Proton));
    assert_eq!(TagKind::try_from(String::from("LOL_WINE")), Ok(TagKind::lol()));
    assert_eq!(TagKind::try_from("unknown"), Err(TagKindError::UnknownString));
}

#[test]
fn wine_kind_from_its_name() {
    assert_eq!(WineTagKind::from("WINE"), WineTagKind::WineGe);
    assert_eq!(WineTagKind::from("LOL_WINE"), WineTagKind::LolWineGe);
}

#[test]
fn tag_kind_from_wine_kind() {
    assert_eq!(TagKind::from(WineTagKind::WineGe), TagKind::wine());
    assert_eq!(TagKind::from(&WineTagKind::LolWineGe), TagKind::lol());
}

#[test]
fn kinds_are_ordered_as_declared() {
    assert!(TagKind::Proton < TagKind::wine());
    assert!(TagKind::wine() < TagKind::lol());
    assert!(WineTagKind::WineGe < WineTagKind::LolWineGe);
}
