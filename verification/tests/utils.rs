use immich::utils::{client_name, Id};
use immich::{ImmichError, User};

#[test]
fn test_safe_uuid() {
    assert!(Id::try_from("f0edb589-1312-4161-b41e-0a18f127b3dd").is_ok());
    assert!(Id::try_from("3fa85f64-5717-4562-b3fc-2c963f66afa6").is_ok());
    assert!(Id::try_from("/3fa85f645717-4562-b3fc-2c963f66afa6").is_err());
    assert!(Id::try_from("3fa85f64.5717-4562-b3fc-2c963f66afa6").is_err());
    assert!(Id::try_from("3fa85f64/5717-4562-b3fc-2c963f66afa6").is_err());
    assert!(Id::try_from("3fa85f[]-5717-4562-b3fc-2c963f66afa6").is_err());
    assert!(Id::try_from("3fa()f64-5717-4562-b3fc-2c963f66afa6").is_err());
    assert!(Id::try_from("3f..5f64-5717-4562-b3fc-2c963f66afa6").is_err());
}

#[test]
fn an_id_of_another_length_is_refused() {
    assert!(matches!(Id::try_from(""), Err(ImmichError::InvalidId)));
    assert!(matches!(
        Id::try_from("f0edb589-1312-4161-b41e-0a18f127b3d"),
        Err(ImmichError::InvalidId)
    ));
    assert!(matches!(
        Id::try_from("f0edb589-1312-4161-b41e-0a18f127b3dd0"),
        Err(ImmichError::InvalidId)
    ));
}

#[test]
fn an_id_needs_its_four_dashes() {
    assert!(Id::try_from("f0edb58901312041610b41e00a18f127b3dd").is_err());
    assert!(Id::try_from("f0edb589a1312-4161-b41e-0a18f127b3dd").is_err());
    assert!(Id::try_from("f0edb589-1312a4161-b41e-0a18f127b3dd").is_err());
    assert!(Id::try_from("f0edb589-1312-4161ab41e-0a18f127b3dd").is_err());
    assert!(Id::try_from("f0edb589-1312-4161-b41ea0a18f127b3dd").is_err());
    assert!(Id::try_from("f0edb589-1312-4161-b41e-0a18f127b3-d").is_err());
}

#[test]
fn an_id_may_hold_letters_of_any_script() {
    let id = Id::try_from("ÄÖÜäöüß9-1312-4161-b41e-0a18f127b3dd").unwrap();
    assert!(id.is_safe());
    assert_eq!(id.as_str(), "ÄÖÜäöüß9-1312-4161-b41e-0a18f127b3dd");
}

#[test]
fn an_id_knows_its_text() {
    let id = Id::new("abc".to_string());
    assert!(id.eq("abc"));
    assert!(!id.eq("abd"));
    assert!(!id.is_safe());
    assert!(Id::default().eq(""));
    assert!(id.clone().eq("abc"));
}

#[test]
fn a_user_keeps_what_the_server_said() {
    let user = User::new(Id::new("u1".to_string()), "a@b.c".to_string(), "Ann".to_string());
    assert_eq!(user.id().as_str(), "u1");
    assert_eq!(user.email(), "a@b.c");
    assert_eq!(user.name(), "Ann");
    let copy = user.clone();
    assert_eq!(copy.name(), "Ann");
}

#[test]
fn the_client_has_a_name() {
    assert_eq!(client_name(), "Immich-0.1 (Rust Client)");
}

#[test]
fn the_shape_of_an_id_goes_by_dashes_and_letters() {
    let chars: Vec<char> = "f0edb589-1312-4161-b41e-0a18f127b3dd".chars().collect();
    let letters: Vec<bool> = chars.iter().map(|c| c.is_alphanumeric()).collect();
    assert!(Id::fits_shape(&chars, &letters));
    assert!(Id::fits_shape(&chars, &vec![true; 36]));
    let mut none = vec![true; 36];
    none[35] = false;
    assert!(!Id::fits_shape(&chars, &none));
    let mut undashed = chars.clone();
    undashed[13] = 'x';
    assert!(!Id::fits_shape(&undashed, &vec![true; 36]));
    assert!(!Id::fits_shape(&chars[..35].to_vec(), &vec![true; 35]));
    assert!(!Id::fits_shape(&chars, &vec![true; 35]));
    let dashes: Vec<char> = "--------".chars().cycle().take(36).collect();
    assert!(Id::fits_shape(&dashes, &vec![true; 36]));
    assert!(!Id::fits_shape(&dashes, &vec![false; 36]));
}
