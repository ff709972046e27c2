//! Configuration of the database and of the server.

use vstd::prelude::*;
use vstd::string::*;

verus! {

pub open spec fn or_default(v: Option<String>, d: Seq<char>) -> Seq<char> {
    match v {
        Some(s) => s@,
        None => d,
    }
}

/// The connection URL: `DATABASE_URL` when set, otherwise
/// `postgres://{user}:{password}@{host}:{port}/{db}` from the `POSTGRES_*`
/// settings with their defaults.
pub open spec fn spec_database_url(
    database_url: Option<String>,
    user: Option<String>,
    password: Option<String>,
    db: Option<String>,
    host: Option<String>,
    port: Option<String>,
) -> Seq<char> {
    match database_url {
        Some(u) => u@,
        None => "postgres://"@ + or_default(user, "postgres"@) + ":"@ + or_default(
            password,
            "password"@,
        ) + "@"@ + or_default(host, "localhost"@) + ":"@ + or_default(port, "5432"@) + "/"@
            + or_default(db, "foodly"@),
    }
}

fn value_or(v: Option<String>, d: &str) -> (s: String)
    ensures
        s@ == or_default(v, d@),
{
    match v {
        Some(s) => s,
        None => String::from_str(d),
    }
}

/// The database connection URL from the settings (each `None` when unset).
pub fn database_url(
    url_setting: Option<String>,
    user: Option<String>,
    password: Option<String>,
    db: Option<String>,
    host: Option<String>,
    port: Option<String>,
) -> (url: String)
    ensures
        url@ == spec_database_url(url_setting, user, password, db, host, port),
{
    let ghost (d0, u0, p0, b0, h0, o0) = (url_setting, user, password, db, host, port);
    match url_setting {
        Some(u) => u,
        None => {
            let user = value_or(user, "postgres");
            let password = value_or(password, "password");
            let db = value_or(db, "foodly");
            let host = value_or(host, "localhost");
            let port = value_or(port, "5432");
            let url = String::from_str("postgres://").concat(user.as_str()).concat(":").concat(
                password.as_str(),
            ).concat("@").concat(host.as_str()).concat(":").concat(port.as_str()).concat(
                "/",
            ).concat(db.as_str());
            assert(url@ =~= spec_database_url(d0, u0, p0, b0, h0, o0));
            url
        },
    }
}

/// Where images are stored: `IMAGE_STORAGE_PATH`, or `./storage/images`.
pub fn image_storage_path(setting: Option<String>) -> (p: String)
    ensures
        p@ == or_default(setting, "./storage/images"@),
{
    value_or(setting, "./storage/images")
}

/// The address the server listens on: `{SERVER_ADDRESS}:{SERVER_PORT}`,
/// by default `127.0.0.1:8080`.
pub fn bind_address(address: Option<String>, port: Option<String>) -> (a: String)
    ensures
        a@ == or_default(address, "127.0.0.1"@) + ":"@ + or_default(port, "8080"@),
{
    let address = value_or(address, "127.0.0.1");
    let port = value_or(port, "8080");
    address.concat(":").concat(port.as_str())
}

} // verus!
