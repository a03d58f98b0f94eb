//! The test configuration file (`pg-test-config.toml`), whose
//! `[postgres.pg18]` section names the PostgreSQL data directory in
//! `data_dir`.

use vstd::prelude::*;

verus! {

/// What the TOML document `text` holds at the key path `path`: `Err` with
/// the parse error's text when `text` is not a TOML document, `Ok(None)`
/// when a key along the path is missing (or the value it reaches is not a
/// table) or the value at the path is not a string, and `Ok(Some(s))` for
/// the string `s` there.
pub uninterp spec fn toml_string_at(text: Seq<char>, path: Seq<Seq<char>>) -> Result<Option<Seq<char>>, Seq<char>>;

/// Parse `text` as a TOML table (`str::parse::<toml::Table>`), follow the
/// keys of `path` with `toml::Value::get`, and read the value there with
/// `toml::Value::as_str`; a parse error is returned as its `Display` text.
/// The contract only names the result: it is [`toml_string_at`] of the
/// text and the path.
#[verifier::external_body]
fn toml_string_at_exec(text: &str, path: &[&str]) -> (r: Result<Option<String>, String>)
    ensures
        match (r, toml_string_at(text@, path@.map_values(|k: &str| k@))) {
            (Ok(Some(s)), Ok(Some(t))) => s@ == t,
            (Ok(None), Ok(None)) => true,
            (Err(e), Err(m)) => e@ == m,
            _ => false,
        },
{
    let root = toml::Value::Table(text.parse::<toml::Table>().map_err(|e| e.to_string())?);
    let mut value = Some(&root);
    for key in path {
        value = value.and_then(|v| v.get(*key));
    }
    Ok(value.and_then(toml::Value::as_str).map(String::from))
}

/// The key path of the data directory: `postgres.pg18.data_dir`.
pub open spec fn data_dir_path() -> Seq<Seq<char>> {
    seq!["postgres"@, "pg18"@, "data_dir"@]
}

/// The data directory a test configuration file names: the string at
/// `postgres.pg18.data_dir`, the empty string when there is none, or the
/// parse error's text when the file is not TOML.
pub fn config_data_dir(text: &str) -> (r: Result<String, String>)
    ensures
        match toml_string_at(text@, data_dir_path()) {
            Ok(Some(s)) => r matches Ok(d) && d@ == s,
            Ok(None) => r matches Ok(d) && d@ == Seq::<char>::empty(),
            Err(m) => r matches Err(e) && e@ == m,
        },
{
    let path: [&str; 3] = ["postgres", "pg18", "data_dir"];
    proof {
        reveal_strlit("postgres");
        reveal_strlit("pg18");
        reveal_strlit("data_dir");
        assert(path@.map_values(|k: &str| k@) =~= data_dir_path());
    }
    match toml_string_at_exec(text, path.as_slice()) {
        Ok(Some(dir)) => Ok(dir),
        Ok(None) => Ok(String::new()),
        Err(e) => Err(e),
    }
}

} // verus!
