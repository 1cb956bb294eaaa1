use candadolib::entry::{Decrypt, Encrypt, EncryptedEntry, ImportedEntry};
use candadolib::{Encrypter, Entry, VaultError};

fn text(s: &str) -> String {
    s.to_string()
}

fn sample() -> Entry {
    Entry::init(text("id1"), text("github"), text("a@b.com"), text("pw"), text("ann"), text("https://github.com"))
}

fn vault() -> Encrypter {
    let keyfile = Encrypter::init("Tr0ub4dor", false).unwrap();
    Encrypter::unlock("Tr0ub4dor", Some(&keyfile)).unwrap()
}

#[test]
fn an_entry_holds_what_it_is_given() {
    let entry = sample();
    assert_eq!(entry.id(), "id1");
    assert_eq!(entry.service(), "github");
    assert_eq!(entry.email(), "a@b.com");
    assert_eq!(entry.password(), "pw");
    assert_eq!(entry.username(), "ann");
    assert_eq!(entry.url(), "https://github.com");
    let fields = entry.ref_array();
    assert_eq!(
        fields.map(|f| f.as_str()),
        ["id1", "github", "a@b.com", "pw", "ann", "https://github.com"]
    );
}

#[test]
fn an_entry_renders_as_one_line() {
    assert_eq!(sample().render(), "id1 | github | a@b.com | pw | ann | https://github.com");
    assert_eq!(Entry::default().render(), " |  |  |  |  | ");
}

#[test]
fn the_default_entry_is_empty() {
    let entry = Entry::default();
    assert!(entry.ref_array().iter().all(|f| f.is_empty()));
}

#[test]
fn a_clone_has_the_same_fields() {
    let entry = sample();
    let copy = entry.clone();
    assert_eq!(copy.render(), entry.render());
}

#[test]
fn a_new_entry_gets_an_id_and_what_is_missing() {
    let entry = Entry::new(text("github"), text("a@b.com"), None, None, None);
    assert_eq!(entry.id.len(), 12);
    assert!(entry.id.chars().all(|c| c.is_ascii_alphanumeric()));
    assert_eq!(entry.service, "github");
    assert_eq!(entry.email, "a@b.com");
    assert_eq!(entry.username, "");
    assert_eq!(entry.url, "");
    assert_eq!(entry.password.len(), 16);
    let digits = entry.password.chars().filter(|c| c.is_ascii_digit()).count();
    assert!(entry.password.chars().any(|c| c.is_ascii_lowercase()));
    assert!(entry.password.chars().any(|c| c.is_ascii_uppercase()));
    assert!(digits * 5 >= 16);
    let other = Entry::new(text("github"), text("a@b.com"), None, None, None);
    assert_ne!(entry.id, other.id);
}

#[test]
fn a_new_entry_keeps_what_is_given() {
    let entry = Entry::new(
        text("github"),
        text("a@b.com"),
        Some(text("pw")),
        Some(text("ann")),
        Some(text("url")),
    );
    assert_eq!(entry.password, "pw");
    assert_eq!(entry.username, "ann");
    assert_eq!(entry.url, "url");
}

#[test]
fn an_entry_is_assembled_from_given_values() {
    let entry = Entry::assemble(text("ID"), text("s"), text("e"), None, text("fallback"), None, Some(text("u")));
    assert_eq!(entry.render(), "ID | s | e | fallback |  | u");
    let entry = Entry::assemble(text("ID"), text("s"), text("e"), Some(text("p")), text("fallback"), Some(text("n")), None);
    assert_eq!(entry.render(), "ID | s | e | p | n | ");
}

#[test]
fn an_imported_record_becomes_an_entry() {
    let record = ImportedEntry {
        service: text("s"),
        email: text("e"),
        password: text(""),
        username: text("n"),
        url: text("u"),
    };
    let entry = Entry::from_import(record);
    assert_eq!(entry.id.len(), 12);
    assert_eq!(entry.render(), format!("{} | s | e |  | n | u", entry.id));
}

#[test]
fn overwriting_changes_what_is_given_only() {
    let mut entry = sample();
    entry.overite(None, None, None, None, None);
    assert_eq!(entry.render(), sample().render());
    entry.overite(Some(text("gitlab")), None, Some(text("new")), None, None);
    assert_eq!(entry.render(), "id1 | gitlab | a@b.com | new | ann | https://github.com");
    entry.overite(None, Some(text("c@d.org")), None, Some(text("bob")), Some(text("")));
    assert_eq!(entry.render(), "id1 | gitlab | c@d.org | new | bob | ");
}

#[test]
fn a_stored_record_holds_what_it_is_given() {
    let record = EncryptedEntry::init(text("id1"), vec![1], vec![2], vec![3], vec![4], vec![5]);
    assert_eq!(record.id, "id1");
    assert_eq!(record.service, vec![1]);
    assert_eq!(record.email, vec![2]);
    assert_eq!(record.password, vec![3]);
    assert_eq!(record.username, vec![4]);
    assert_eq!(record.url, vec![5]);
}

#[test]
fn sealing_an_entry_keeps_the_id_and_hides_the_rest() {
    let vault = vault();
    let entry = sample();
    let record = entry.encrypt(&vault).unwrap();
    assert_eq!(record.id, "id1");
    assert_eq!(vault.decrypt(&record.service).unwrap(), "github");
    assert_eq!(vault.decrypt(&record.email).unwrap(), "a@b.com");
    assert_eq!(vault.decrypt(&record.password).unwrap(), "pw");
    assert_eq!(vault.decrypt(&record.username).unwrap(), "ann");
    assert_eq!(vault.decrypt(&record.url).unwrap(), "https://github.com");
    assert_eq!(record.decrypt(&vault).unwrap().render(), entry.render());
}

#[test]
fn a_record_with_a_bad_blob_does_not_open() {
    let vault = vault();
    let mut record = sample().encrypt(&vault).unwrap();
    record.username = b"tampered".to_vec();
    assert!(matches!(record.decrypt(&vault), Err(VaultError::Decrypt)));
}

#[test]
fn an_entry_is_not_sealed_under_malformed_keys() {
    let broken = Encrypter { derived_key: vec![], encrpytion_key: vec![] };
    assert!(matches!(sample().encrypt(&broken), Err(VaultError::Decrypt)));
}
