use sphagnumdb::sprout::data_storage::DataStorage;
use sphagnumdb::sprout::passport::Passport;
use sphagnumdb::sprout::sprout::Sprout;

#[test]
fn data_storage_it_returns() {
    let ds = DataStorage::new();
    assert_eq!(ds.get_number(), 0);
}

#[test]
fn passport_it_returns() {
    let ds = Passport::new();
    assert_eq!(ds.get_name(), "default name");
}

#[test]
fn sprout_it_returns() {
    let sp = Sprout::new();
    assert_eq!(sp.get_data_storage().get_number(), 0);
    assert_eq!(sp.get_passport().get_name(), "default name");
}
