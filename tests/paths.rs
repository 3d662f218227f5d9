use monokakido::{Error, MonokakidoDict, Paths};

#[test]
fn list_path_choices() {
    assert_eq!(Paths::list_path(Some("/d"), Some("/c")), "/d");
    assert_eq!(Paths::list_path(None, Some("/c")), "/c");
    assert_eq!(
        Paths::list_path(None, None),
        "/Library/Application Support/AppStoreContent/jp.monokakido.Dictionaries/Products/"
    );
}

#[test]
fn std_dict_path_joins_name() {
    assert_eq!(Paths::std_dict_path("KOJIEN7", Some("/dicts"), None), "/dicts/KOJIEN7");
    assert_eq!(Paths::std_dict_path("KOJIEN7", Some("/dicts/"), None), "/dicts/KOJIEN7");
    assert_eq!(Paths::std_dict_path("/abs", Some("/dicts"), None), "/abs");
}

#[test]
fn json_path_of_dictionary() {
    assert_eq!(Paths::json_path("/d/X.dict", "X"), "/d/X.dict/Contents/X.json");
}

#[test]
fn content_paths() {
    let loc = MonokakidoDict::open_with_dir("X", Some("/d"), None);
    assert_eq!(loc.base_path, "/d/X");
    assert_eq!(loc.json_path(), "/d/X/Contents/X.json");
    let paths = Paths::from_contents(loc, vec!["first".to_string(), "x_main".to_string()]).unwrap();
    assert_eq!(paths.contents_path(), "/d/X/Contents/x_main");
    assert_eq!(paths.key_path(), "/d/X/Contents/x_main/key");
    assert_eq!(paths.key_headword_path(), "/d/X/Contents/x_main/key/headword.keystore");
    assert_eq!(paths.headline_path(), "/d/X/Contents/x_main/headline");
    assert_eq!(
        paths.headline_long_path(),
        "/d/X/Contents/x_main/headline/headline.headlinestore"
    );
}

#[test]
fn no_contents_listed() {
    let loc = MonokakidoDict::open("X", Some("/c"));
    assert_eq!(loc.base_path, "/c/X");
    assert_eq!(Paths::from_contents(loc, vec![]).err(), Some(Error::InvalidDictJson));
}

#[test]
fn open_with_path_takes_name_before_last_dot() {
    let loc = MonokakidoDict::open_with_path("/some/where/KOJIEN7.v2.dict").unwrap();
    assert_eq!(loc.name, "KOJIEN7.v2");
    assert_eq!(loc.base_path, "/some/where/KOJIEN7.v2.dict");
    let loc = MonokakidoDict::open_with_path("rel/NAME.x/").unwrap();
    assert_eq!(loc.name, "NAME");
}

#[test]
fn open_with_path_failures() {
    assert_eq!(MonokakidoDict::open_with_path("/some/where/nodot").err(), Some(Error::FopenError));
    assert_eq!(MonokakidoDict::open_with_path("/").err(), Some(Error::FopenError));
    assert_eq!(MonokakidoDict::open_with_path("a/..").err(), Some(Error::FopenError));
}

#[test]
fn dictionary_from_key_file() {
    let loc = MonokakidoDict::open_with_dir("X", Some("/d"), None);
    let paths = Paths::from_contents(loc, vec!["c".to_string()]).unwrap();
    assert_eq!(
        MonokakidoDict::from_key_file(paths, &[0; 8]).err(),
        Some(Error::IOError)
    );
    let loc = MonokakidoDict::open_with_dir("X", Some("/d"), None);
    let paths = Paths::from_contents(loc, vec!["c".to_string()]).unwrap();
    let mut f = Vec::new();
    for x in [0x10000u32, 0, 0x10, 0x18, 0, 0, 4, 20, 24, 28, 32, 0, 0, 0, 0] {
        f.extend_from_slice(&x.to_le_bytes());
    }
    let d = MonokakidoDict::from_key_file(paths, &f).unwrap();
    assert_eq!(d.name(), "X");
    assert_eq!(d.keys.index_prefix.len(), 0);
    assert_eq!(d.paths().key_path(), "/d/X/Contents/c/key");
}
