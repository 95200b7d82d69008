//! Where the daemon and its tools keep their files, from the environment
//! values the caller reads (`None` when a variable is unset or not
//! Unicode).
use vstd::prelude::*;

verus! {

/// `base` joined with the relative path `rel`: a `/` is put between them
/// unless `base` is empty or already ends with one.
pub open spec fn join_path(base: Seq<char>, rel: Seq<char>) -> Seq<char> {
    if base.len() == 0 || base.last() == '/' {
        base + rel
    } else {
        base + seq!['/'] + rel
    }
}

/// Directory of the daemon's socket: `$XDG_RUNTIME_DIR`, else `/tmp`.
pub open spec fn runtime_dir_spec(xdg: Option<Seq<char>>) -> Seq<char> {
    match xdg {
        Some(d) => d,
        None => "/tmp"@,
    }
}

/// Directory of the index and other state: under `$HOME`, else under
/// `/tmp`.
pub open spec fn state_dir_spec(home: Option<Seq<char>>) -> Seq<char> {
    match home {
        Some(h) => join_path(h, "Library/Application Support/maschined"@),
        None => "/tmp/maschined"@,
    }
}

fn lit(s: &str) -> (r: String)
    ensures
        r@ == s@,
{
    s.to_string()
}

/// `base` joined with `rel` (see `join_path`).
pub fn join(base: &str, rel: &str) -> (p: String)
    ensures
        p@ == join_path(base@, rel@),
{
    let mut out = lit(base);
    let n = base.unicode_len();
    if n > 0 && base.get_char(n - 1) != '/' {
        out.append("/");
        proof {
            reveal_strlit("/");
        }
    }
    out.append(rel);
    out
}

/// The daemon's runtime directory.
pub fn runtime_dir(xdg: &Option<String>) -> (d: String)
    ensures
        d@ == runtime_dir_spec(match xdg {
            Some(s) => Some(s@),
            None => None,
        }),
{
    match xdg {
        Some(d) => d.clone(),
        None => {
            proof {
                reveal_strlit("/tmp");
            }
            lit("/tmp")
        },
    }
}

/// The socket `msctl` talks to: `maschined.sock` in the runtime directory.
pub fn socket_path(xdg: &Option<String>) -> (p: String)
    ensures
        p@ == join_path(
            runtime_dir_spec(match xdg {
                Some(s) => Some(s@),
                None => None,
            }),
            "maschined.sock"@,
        ),
{
    let d = runtime_dir(xdg);
    join(d.as_str(), "maschined.sock")
}

/// The daemon's state directory.
pub fn state_dir(home: &Option<String>) -> (d: String)
    ensures
        d@ == state_dir_spec(match home {
            Some(s) => Some(s@),
            None => None,
        }),
{
    match home {
        Some(h) => join(h.as_str(), "Library/Application Support/maschined"),
        None => {
            proof {
                reveal_strlit("/tmp/maschined");
            }
            lit("/tmp/maschined")
        },
    }
}

/// The preset index database: `index.sqlite` in the state directory.
pub fn index_db_path(home: &Option<String>) -> (p: String)
    ensures
        p@ == join_path(
            state_dir_spec(match home {
                Some(s) => Some(s@),
                None => None,
            }),
            "index.sqlite"@,
        ),
{
    let d = state_dir(home);
    join(d.as_str(), "index.sqlite")
}

/// The plugin host binary: `$MASCHINE_PLUGINHOST`, else the path of a
/// development build.
pub fn plugin_host_path(var: &Option<String>) -> (p: String)
    ensures
        p@ == match var {
            Some(s) => s@,
            None => "pluginhost/build/maschine-pluginhost_artefacts/maschine-pluginhost"@,
        },
{
    match var {
        Some(p) => p.clone(),
        None => lit("pluginhost/build/maschine-pluginhost_artefacts/maschine-pluginhost"),
    }
}

/// Library roots worth scanning, before checking which exist: the system
/// Native Instruments folder, then with `$HOME` the user content and the
/// user's Native Instruments folder.
pub fn default_root_candidates(home: &Option<String>) -> (roots: Vec<String>)
    ensures
        roots@.map_values(|r: String| r@) == seq!["/Library/Application Support/Native Instruments"@]
            + match home {
            Some(h) => seq![
                join_path(h@, "Documents/Native Instruments/User Content"@),
                join_path(h@, "Library/Application Support/Native Instruments"@),
            ],
            None => seq![],
        },
{
    let mut out: Vec<String> = Vec::new();
    out.push(lit("/Library/Application Support/Native Instruments"));
    match home {
        Some(h) => {
            out.push(join(h.as_str(), "Documents/Native Instruments/User Content"));
            out.push(join(h.as_str(), "Library/Application Support/Native Instruments"));
        },
        None => {},
    }
    assert(out@.map_values(|r: String| r@) =~= seq!["/Library/Application Support/Native Instruments"@]
        + match home {
        Some(h) => seq![
            join_path(h@, "Documents/Native Instruments/User Content"@),
            join_path(h@, "Library/Application Support/Native Instruments"@),
        ],
        None => seq![],
    });
    out
}

/// Where Komplete Kontrol keeps its database, before checking that it
/// exists; none without `$HOME`.
pub fn komplete_db_candidate(home: &Option<String>) -> (p: Option<String>)
    ensures
        match home {
            Some(h) => p matches Some(q) && q@ == join_path(
                h@,
                "Library/Application Support/Native Instruments/Komplete Kontrol/komplete.db3"@,
            ),
            None => p is None,
        },
{
    match home {
        Some(h) => Some(
            join(
                h.as_str(),
                "Library/Application Support/Native Instruments/Komplete Kontrol/komplete.db3",
            ),
        ),
        None => None,
    }
}

} // verus!
