//! The two pages the service serves. Their markup is plain static text;
//! nothing in the session or authorization layer depends on it.

use vstd::prelude::*;

verus! {

/// The index page.
pub const INDEX: &'static str = "<!doctype html><html lang=\"en\"><head><meta charset=\"utf-8\"><title>Livy Manager</title></head><body><h1>Livy Manager</h1><div id=\"sessions\"></div><script src=\"/static/app.js\"></script></body></html>";

/// The login page.
pub const LOGIN: &'static str = "<!doctype html><html lang=\"en\"><head><meta charset=\"utf-8\"><title>Livy Manager - Login</title></head><body><h1>Login</h1><form action=\"/login\" method=\"post\"><input name=\"uid\" type=\"text\"><input name=\"password\" type=\"password\"><button type=\"submit\">Sign in</button></form></body></html>";

} // verus!
