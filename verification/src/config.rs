//! The options of the program: from the deployment's variables and the
//! command line, and the places where the GeoIP database is looked for.
use vstd::prelude::*;

use crate::dmarc::str_eq;
use crate::text::{append, concat2, ends_with, seq_ends_with, string_of, views};

verus! {

/// The database file that the installation bundles.
pub open spec fn bundled_geoip_path() -> Seq<char> {
    "/usr/local/share/dmarcontrol/ip66.mmdb"@
}

/// A relative file name under a directory, as `Path::join` writes it.
pub open spec fn joined(dir: Seq<char>, name: Seq<char>) -> Seq<char> {
    if dir.len() == 0 {
        name
    } else if seq_ends_with(dir, "/"@) {
        dir + name
    } else {
        dir + "/"@ + name
    }
}

/// A relative file name under a directory.
pub fn join_path(dir: &str, name: &str) -> (r: String)
    ensures
        r@ == joined(dir@, name@),
{
    if dir.is_empty() {
        string_of(name)
    } else if ends_with(dir, "/") {
        concat2(dir, name)
    } else {
        let mut r = concat2(dir, "/");
        append(&mut r, name);
        r
    }
}

/// Where the GeoIP database is looked for: the one named, else the data
/// directory's `ip66.mmdb` and then the bundled file.
pub open spec fn geoip_paths_seq(data_dir: Seq<char>, explicit: Option<Seq<char>>) -> Seq<Seq<char>> {
    match explicit {
        Some(p) => seq![p],
        None => seq![joined(data_dir, "ip66.mmdb"@), bundled_geoip_path()],
    }
}

/// Where the GeoIP database is looked for; see `geoip_paths_seq`.
pub fn geoip_paths(data_dir: &str, explicit: Option<&str>) -> (r: Vec<String>)
    ensures
        views(r@) == geoip_paths_seq(data_dir@, crate::oidc::opt_view(explicit)),
{
    let mut r: Vec<String> = Vec::new();
    match explicit {
        Some(p) => {
            r.push(string_of(p));
        },
        None => {
            r.push(join_path(data_dir, "ip66.mmdb"));
            r.push(string_of("/usr/local/share/dmarcontrol/ip66.mmdb"));
        },
    }
    assert(views(r@) =~= geoip_paths_seq(data_dir@, crate::oidc::opt_view(explicit)));
    r
}

/// The options of a run.
pub struct Options {
    pub addr: String,
    pub data_dir: String,
    pub geoip_db_paths: Vec<String>,
    /// The GeoIP database was named by the deployment or on the command line.
    pub geoip_db_explicit: bool,
    pub import_path: Option<String>,
    pub import_mailbox: bool,
    /// `--help` or `-h` was given: the program prints its usage and stops.
    pub show_help: bool,
}

/// The plain values of options while the command line is read.
pub struct OptionsView {
    pub addr: Seq<char>,
    pub data_dir: Seq<char>,
    pub paths: Seq<Seq<char>>,
    pub explicit: bool,
    pub import_path: Option<Seq<char>>,
    pub import_mailbox: bool,
    pub show_help: bool,
}

/// The plain values of options.
pub open spec fn options_view(o: Options) -> OptionsView {
    OptionsView {
        addr: o.addr@,
        data_dir: o.data_dir@,
        paths: views(o.geoip_db_paths@),
        explicit: o.geoip_db_explicit,
        import_path: match o.import_path {
            Some(p) => Some(p@),
            None => None,
        },
        import_mailbox: o.import_mailbox,
        show_help: o.show_help,
    }
}

/// The options before the command line: the deployment's listen address
/// (else `127.0.0.1:8080`), data directory (else `data`) and database.
pub open spec fn initial_options(
    addr: Option<Seq<char>>,
    data_dir: Option<Seq<char>>,
    geoip_db: Option<Seq<char>>,
) -> OptionsView {
    let d = match data_dir {
        Some(v) => v,
        None => "data"@,
    };
    OptionsView {
        addr: match addr {
            Some(v) => v,
            None => "127.0.0.1:8080"@,
        },
        data_dir: d,
        paths: geoip_paths_seq(d, geoip_db),
        explicit: geoip_db is Some,
        import_path: None,
        import_mailbox: false,
        show_help: false,
    }
}

/// Reading the command line from argument `i`: `--addr`, `--data-dir`,
/// `--geoip-db` and `--import` take the next argument when there is one;
/// `--import-mailbox` is a switch; `--help` and `-h` stop the reading;
/// anything else is passed over. A new data directory moves the database
/// search there unless a database was named.
pub open spec fn read_args(args: Seq<Seq<char>>, i: int, o: OptionsView) -> OptionsView
    decreases args.len() - i,
{
    if i < 0 || i >= args.len() || o.show_help {
        o
    } else {
        let a = args[i];
        let has_value = i + 1 < args.len();
        if a == "--addr"@ {
            if has_value {
                read_args(args, i + 2, OptionsView { addr: args[i + 1], ..o })
            } else {
                o
            }
        } else if a == "--data-dir"@ {
            if has_value {
                let d = args[i + 1];
                read_args(
                    args,
                    i + 2,
                    OptionsView {
                        data_dir: d,
                        paths: if o.explicit {
                            o.paths
                        } else {
                            geoip_paths_seq(d, None)
                        },
                        ..o
                    },
                )
            } else {
                o
            }
        } else if a == "--geoip-db"@ {
            if has_value {
                read_args(args, i + 2, OptionsView { paths: seq![args[i + 1]], explicit: true, ..o })
            } else {
                o
            }
        } else if a == "--import"@ {
            if has_value {
                read_args(args, i + 2, OptionsView { import_path: Some(args[i + 1]), ..o })
            } else {
                o
            }
        } else if a == "--import-mailbox"@ {
            read_args(args, i + 1, OptionsView { import_mailbox: true, ..o })
        } else if a == "--help"@ || a == "-h"@ {
            OptionsView { show_help: true, ..o }
        } else {
            read_args(args, i + 1, o)
        }
    }
}

/// The options of a run from the deployment's variables and the command-line
/// arguments after the program's name; see `initial_options` and `read_args`.
pub fn parse_options(
    addr: Option<&str>,
    data_dir: Option<&str>,
    geoip_db: Option<&str>,
    args: &Vec<String>,
) -> (o: Options)
    ensures
        options_view(o) == read_args(
            views(args@),
            0,
            initial_options(
                crate::oidc::opt_view(addr),
                crate::oidc::opt_view(data_dir),
                crate::oidc::opt_view(geoip_db),
            ),
        ),
{
    let dir = match data_dir {
        Some(d) => string_of(d),
        None => string_of("data"),
    };
    let paths = geoip_paths(dir.as_str(), geoip_db);
    let mut o = Options {
        addr: match addr {
            Some(a) => string_of(a),
            None => string_of("127.0.0.1:8080"),
        },
        data_dir: dir,
        geoip_db_paths: paths,
        geoip_db_explicit: geoip_db.is_some(),
        import_path: None,
        import_mailbox: false,
        show_help: false,
    };
    let ghost av = views(args@);
    let ghost target = read_args(
        av,
        0,
        initial_options(
            crate::oidc::opt_view(addr),
            crate::oidc::opt_view(data_dir),
            crate::oidc::opt_view(geoip_db),
        ),
    );
    assert(options_view(o) == initial_options(
        crate::oidc::opt_view(addr),
        crate::oidc::opt_view(data_dir),
        crate::oidc::opt_view(geoip_db),
    ));
    let mut i: usize = 0;
    while i < args.len()
        invariant
            i <= args@.len(),
            av == views(args@),
            av.len() == args@.len(),
            target == read_args(
                views(args@),
                0,
                initial_options(
                    crate::oidc::opt_view(addr),
                    crate::oidc::opt_view(data_dir),
                    crate::oidc::opt_view(geoip_db),
                ),
            ),
            !o.show_help,
            read_args(av, i as int, options_view(o)) == target,
        decreases args.len() - i,
    {
        let a = args[i].as_str();
        assert(av[i as int] == a@);
        let has_value = i + 1 < args.len();
        let ghost ov = options_view(o);
        assert(read_args(av, i as int, ov) == target);
        if str_eq(a, "--addr") {
            if !has_value {
                return o;
            }
            assert(av[i + 1] == args@[i + 1]@);
            o.addr = string_of(args[i + 1].as_str());
            i = i + 2;
        } else if str_eq(a, "--data-dir") {
            if !has_value {
                return o;
            }
            assert(av[i + 1] == args@[i + 1]@);
            let d = string_of(args[i + 1].as_str());
            if !o.geoip_db_explicit {
                o.geoip_db_paths = geoip_paths(d.as_str(), None);
            }
            o.data_dir = d;
            i = i + 2;
        } else if str_eq(a, "--geoip-db") {
            if !has_value {
                return o;
            }
            assert(av[i + 1] == args@[i + 1]@);
            o.geoip_db_paths = geoip_paths(o.data_dir.as_str(), Some(args[i + 1].as_str()));
            o.geoip_db_explicit = true;
            i = i + 2;
        } else if str_eq(a, "--import") {
            if !has_value {
                return o;
            }
            assert(av[i + 1] == args@[i + 1]@);
            o.import_path = Some(string_of(args[i + 1].as_str()));
            i = i + 2;
        } else if str_eq(a, "--import-mailbox") {
            o.import_mailbox = true;
            i = i + 1;
        } else if str_eq(a, "--help") || str_eq(a, "-h") {
            o.show_help = true;
            return o;
        } else {
            i = i + 1;
        }
    }
    o
}

/// The usage text.
pub fn help_text() -> (r: &'static str)
    ensures
        r@ == "dmarcontrol\n\nUsage:\n  dmarcontrol [--addr 127.0.0.1:8080] [--data-dir data] [--geoip-db data/ip66.mmdb]\n  dmarcontrol --import ./reports [--data-dir data]\n  dmarcontrol --import-mailbox [--data-dir data]\n"@,
{
    "dmarcontrol\n\nUsage:\n  dmarcontrol [--addr 127.0.0.1:8080] [--data-dir data] [--geoip-db data/ip66.mmdb]\n  dmarcontrol --import ./reports [--data-dir data]\n  dmarcontrol --import-mailbox [--data-dir data]\n"
}

} // verus!
