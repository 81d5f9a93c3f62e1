//! Team logos: the names under which uploaded logos are stored, the
//! addresses under which the bridge serves them, and how it answers.
use vstd::prelude::*;
use vstd::string::StringExecFns;
use crate::appdata::DataDir;
use crate::state::CasterTeams;
use crate::text::{decimal, ends_with, has_prefix, has_suffix, push_decimal, starts_with};

verus! {

/// The address of the bridge's HTTP server.
pub const HTTP_ADDRESS: &'static str = "127.0.0.1:8081";

/// The body of the answer to a request for a logo that is not there.
pub const FILE_NOT_FOUND_BODY: &'static str = "404 - File not found";

/// The body of the answer to any other request.
pub const NOT_FOUND_BODY: &'static str = "404 - Not found";

/// A team, with the name that the caster gave it.
pub enum Team {
    Home(String),
    Away(String),
}

/// `home` or `away`.
pub open spec fn team_side(team: Team) -> Seq<char> {
    match team {
        Team::Home(_) => "home"@,
        Team::Away(_) => "away"@,
    }
}

/// The team's name, or its side when it has no name.
pub open spec fn team_label(team: Team) -> Seq<char> {
    match team {
        Team::Home(name) => if name@.len() == 0 {
            "home"@
        } else {
            name@
        },
        Team::Away(name) => if name@.len() == 0 {
            "away"@
        } else {
            name@
        },
    }
}

/// The file name of a logo uploaded at `timestamp`:
/// `<side>_<timestamp>.<extension>`.
pub open spec fn logo_file_name_spec(team: Team, timestamp: u64, extension: Seq<char>) -> Seq<char> {
    team_side(team) + "_"@ + decimal(timestamp as nat) + "."@ + extension
}

/// The address under which the bridge serves a logo:
/// `http://<HTTP_ADDRESS>/logos/<side>/<file>`.
pub open spec fn logo_url_spec(team: Team, file_name: Seq<char>) -> Seq<char> {
    "http://"@ + HTTP_ADDRESS@ + "/logos/"@ + team_side(team) + "/"@ + file_name
}

impl Team {
    /// `home` or `away`.
    pub fn side(&self) -> (s: &'static str)
        ensures
            s@ == team_side(*self),
    {
        match self {
            Team::Home(_) => "home",
            Team::Away(_) => "away",
        }
    }

    /// The folder that the team's uploaded logo goes to.
    pub fn logo_dir(&self) -> (d: DataDir)
        ensures
            d == match *self {
                Team::Home(_) => DataDir::HomeLogos,
                Team::Away(_) => DataDir::AwayLogos,
            },
    {
        match self {
            Team::Home(_) => DataDir::HomeLogos,
            Team::Away(_) => DataDir::AwayLogos,
        }
    }

    /// The team's name, or its side when it has no name.
    pub fn label(&self) -> (s: String)
        ensures
            s@ == team_label(*self),
    {
        match self {
            Team::Home(name) => if name.as_str().is_empty() {
                String::from_str("home")
            } else {
                name.clone()
            },
            Team::Away(name) => if name.as_str().is_empty() {
                String::from_str("away")
            } else {
                name.clone()
            },
        }
    }

    /// The title of the dialog in which the caster picks the team's logo.
    pub fn dialog_title(&self) -> (s: String)
        ensures
            s@ == "Pick "@ + team_label(*self) + " logo"@,
    {
        let mut s = String::from_str("Pick ");
        let label = self.label();
        s.append(label.as_str());
        s.append(" logo");
        s
    }
}

/// The file name under which a logo uploaded at `timestamp` is stored.
pub fn logo_file_name(team: &Team, timestamp: u64, extension: &str) -> (s: String)
    ensures
        s@ == logo_file_name_spec(*team, timestamp, extension@),
{
    let mut s = String::from_str(team.side());
    s.append("_");
    push_decimal(&mut s, timestamp);
    s.append(".");
    s.append(extension);
    s
}

/// The address under which the bridge serves an uploaded logo.
pub fn logo_url(team: &Team, file_name: &str) -> (s: String)
    ensures
        s@ == logo_url_spec(*team, file_name@),
{
    let mut s = String::from_str("http://");
    s.append(HTTP_ADDRESS);
    s.append("/logos/");
    s.append(team.side());
    s.append("/");
    s.append(file_name);
    s
}

/// Points the team's logo at a newly uploaded file; the other team is left
/// as it was.
pub fn set_uploaded_logo(teams: &mut CasterTeams, team: &Team, file_name: &str)
    ensures
        match *team {
            Team::Home(_) => {
                &&& final(teams).home.logo_url@ == logo_url_spec(*team, file_name@)
                &&& final(teams).home.name == old(teams).home.name
                &&& final(teams).away == old(teams).away
            },
            Team::Away(_) => {
                &&& final(teams).away.logo_url@ == logo_url_spec(*team, file_name@)
                &&& final(teams).away.name == old(teams).away.name
                &&& final(teams).home == old(teams).home
            },
        },
{
    let url = logo_url(team, file_name);
    match team {
        Team::Home(_) => {
            teams.home.logo_url = url;
        },
        Team::Away(_) => {
            teams.away.logo_url = url;
        },
    }
}

/// A request for a logo: its path starts with `/logos/`.
pub fn is_logo_request(url: &str) -> (b: bool)
    ensures
        b == has_prefix(url@, "/logos/"@),
{
    starts_with(url, "/logos/")
}

/// The content type of a served logo: PNG and JPEG by the file's extension,
/// raw bytes otherwise.
pub fn logo_content_type(file_name: &str) -> (t: &'static str)
    ensures
        has_suffix(file_name@, ".png"@) ==> t@ == "image/png"@,
        !has_suffix(file_name@, ".png"@) && (has_suffix(file_name@, ".jpg"@) || has_suffix(
            file_name@,
            ".jpeg"@,
        )) ==> t@ == "image/jpeg"@,
        !has_suffix(file_name@, ".png"@) && !has_suffix(file_name@, ".jpg"@) && !has_suffix(
            file_name@,
            ".jpeg"@,
        ) ==> t@ == "application/octet-stream"@,
{
    if ends_with(file_name, ".png") {
        "image/png"
    } else if ends_with(file_name, ".jpg") || ends_with(file_name, ".jpeg") {
        "image/jpeg"
    } else {
        "application/octet-stream"
    }
}

/// A file name that stays inside the folder it is joined to, on every
/// platform: not empty, not `.` or `..`, and without `/`, `\` or `:` (no
/// separator and no drive prefix).
pub open spec fn safe_file_name(f: Seq<char>) -> bool {
    &&& f.len() > 0
    &&& f != seq!['.']
    &&& f != seq!['.', '.']
    &&& forall|j: int| 0 <= j < f.len() ==> f[j] != '/' && f[j] != '\\' && f[j] != ':'
}

/// The file a request path asks for: `/logos/home/<file>` and
/// `/logos/away/<file>` name a file in the team's logo folder,
/// `/logos/<file>` one in the logos folder itself, each with a safe file
/// name; anything else names none.
pub open spec fn request_target(path: Seq<char>) -> Option<(DataDir, Seq<char>)> {
    if has_prefix(path, "/logos/home/"@) && safe_file_name(path.skip(12)) {
        Some((DataDir::HomeLogos, path.skip(12)))
    } else if has_prefix(path, "/logos/away/"@) && safe_file_name(path.skip(12)) {
        Some((DataDir::AwayLogos, path.skip(12)))
    } else if has_prefix(path, "/logos/"@) && safe_file_name(path.skip(7)) {
        Some((DataDir::Logos, path.skip(7)))
    } else {
        None
    }
}

/// Whether `f` is a safe file name.
pub fn is_safe_file_name(f: &str) -> (b: bool)
    ensures
        b == safe_file_name(f@),
{
    let n = f.unicode_len();
    if n == 0 {
        return false;
    }
    if n == 1 && f.get_char(0) == '.' {
        assert(f@ =~= seq!['.']);
        return false;
    }
    if n == 2 && f.get_char(0) == '.' && f.get_char(1) == '.' {
        assert(f@ =~= seq!['.', '.']);
        return false;
    }
    assert(f@ != seq!['.']) by {
        if n == 1 {
            assert(seq!['.'][0] == '.');
        }
    }
    assert(f@ != seq!['.', '.']) by {
        if n == 2 {
            assert(seq!['.', '.'][0] == '.');
            assert(seq!['.', '.'][1] == '.');
        }
    }
    let mut i: usize = 0;
    while i < n
        invariant
            n == f@.len(),
            i <= n,
            forall|j: int| 0 <= j < i ==> f@[j] != '/' && f@[j] != '\\' && f@[j] != ':',
        decreases n - i,
    {
        let c = f.get_char(i);
        if c == '/' || c == '\\' || c == ':' {
            return false;
        }
        i = i + 1;
    }
    true
}

/// The folder and file that a request path asks for, if any.
pub fn logo_request_target(path: &str) -> (r: Option<(DataDir, String)>)
    ensures
        match r {
            Some((d, f)) => request_target(path@) == Some((d, f@)),
            None => request_target(path@) is None,
        },
{
    let n = path.unicode_len();
    proof {
        reveal_strlit("/logos/home/");
        reveal_strlit("/logos/away/");
        reveal_strlit("/logos/");
    }
    if starts_with(path, "/logos/home/") {
        let name = path.substring_char(12, n);
        assert(name@ =~= path@.skip(12));
        if is_safe_file_name(name) {
            return Some((DataDir::HomeLogos, String::from_str(name)));
        }
    }
    if starts_with(path, "/logos/away/") {
        let name = path.substring_char(12, n);
        assert(name@ =~= path@.skip(12));
        if is_safe_file_name(name) {
            return Some((DataDir::AwayLogos, String::from_str(name)));
        }
    }
    if starts_with(path, "/logos/") {
        let name = path.substring_char(7, n);
        assert(name@ =~= path@.skip(7));
        if is_safe_file_name(name) {
            return Some((DataDir::Logos, String::from_str(name)));
        }
    }
    None
}

/// Whatever the request, the file it leads to is one plain name inside one
/// of the logo folders: no separator, no drive prefix, no `.` or `..`.
pub proof fn law_request_stays_in_logo_folders(path: Seq<char>)
    ensures
        request_target(path) matches Some((d, f)) ==> safe_file_name(f) && (d == DataDir::Logos || d
            == DataDir::HomeLogos || d == DataDir::AwayLogos),
{
}

/// What a request leads to, spelled out: the path is `/logos/` (then
/// `home/` or `away/` for a team folder) followed by the file name, which is
/// one non-empty name other than `.` and `..` with no `/`, `\` or `:`; a
/// path outside `/logos/` leads nowhere.
pub proof fn law_request_target_shape(path: Seq<char>)
    ensures
        request_target(path) matches Some((d, f)) ==> {
            &&& f.len() > 0
            &&& f != seq!['.']
            &&& f != seq!['.', '.']
            &&& (forall|j: int| 0 <= j < f.len() ==> f[j] != '/' && f[j] != '\\' && f[j] != ':')
            &&& path == match d {
                DataDir::HomeLogos => "/logos/home/"@ + f,
                DataDir::AwayLogos => "/logos/away/"@ + f,
                _ => "/logos/"@ + f,
            }
            &&& (d == DataDir::Logos || d == DataDir::HomeLogos || d == DataDir::AwayLogos)
        },
        !(path.len() >= 7 && path.subrange(0, 7) == "/logos/"@) ==> request_target(path) is None,
{
    reveal_strlit("/logos/");
    reveal_strlit("/logos/home/");
    reveal_strlit("/logos/away/");
    if let Some((d, f)) = request_target(path) {
        if has_prefix(path, "/logos/home/"@) && safe_file_name(path.skip(12)) {
            assert(path =~= "/logos/home/"@ + f);
        } else if has_prefix(path, "/logos/away/"@) && safe_file_name(path.skip(12)) {
            assert(path =~= "/logos/away/"@ + f);
        } else {
            assert(path =~= "/logos/"@ + f);
        }
    }
    if has_prefix(path, "/logos/home/"@) {
        assert(path.subrange(0, 7) =~= path.subrange(0, 12).subrange(0, 7));
        assert("/logos/home/"@.subrange(0, 7) =~= "/logos/"@);
    }
    if has_prefix(path, "/logos/away/"@) {
        assert(path.subrange(0, 7) =~= path.subrange(0, 12).subrange(0, 7));
        assert("/logos/away/"@.subrange(0, 7) =~= "/logos/"@);
    }
}

/// The path under which the bridge serves an uploaded logo:
/// `/logos/<side>/<file>`.
pub open spec fn logo_path_spec(team: Team, file_name: Seq<char>) -> Seq<char> {
    "/logos/"@ + team_side(team) + "/"@ + file_name
}

proof fn lemma_decimal_digits(n: nat)
    ensures
        decimal(n).len() > 0,
        forall|j: int|
            0 <= j < decimal(n).len() ==> decimal(n)[j] != '/' && decimal(n)[j] != '\\' && decimal(
                n,
            )[j] != ':' && decimal(n)[j] != '.',
    decreases n,
{
    if n >= 10 {
        lemma_decimal_digits(n / 10);
        assert forall|j: int| 0 <= j < decimal(n).len() implies decimal(n)[j] != '/' && decimal(
            n,
        )[j] != '\\' && decimal(n)[j] != ':' && decimal(n)[j] != '.' by {
            if j < decimal(n / 10).len() {
                assert(decimal(n)[j] == decimal(n / 10)[j]);
            }
        }
    }
}

/// An uploaded logo is served back: the address that `set_uploaded_logo`
/// writes is the bridge's address followed by `/logos/<side>/<file>`, and
/// that request leads to the team's logo folder (`Team::logo_dir`, where the
/// upload is stored) and to the file name `logo_file_name` gave it.
pub proof fn law_uploaded_logo_request(team: Team, timestamp: u64, extension: Seq<char>)
    requires
        forall|j: int|
            0 <= j < extension.len() ==> extension[j] != '/' && extension[j] != '\\' && extension[j]
                != ':',
    ensures
        logo_url_spec(team, logo_file_name_spec(team, timestamp, extension)) == "http://"@
            + HTTP_ADDRESS@ + logo_path_spec(team, logo_file_name_spec(team, timestamp, extension)),
        request_target(logo_path_spec(team, logo_file_name_spec(team, timestamp, extension))) == Some(
            (
                match team {
                    Team::Home(_) => DataDir::HomeLogos,
                    Team::Away(_) => DataDir::AwayLogos,
                },
                logo_file_name_spec(team, timestamp, extension),
            ),
        ),
{
    reveal_strlit("/logos/");
    reveal_strlit("/logos/home/");
    reveal_strlit("/logos/away/");
    reveal_strlit("/");
    reveal_strlit("_");
    reveal_strlit(".");
    reveal_strlit("home");
    reveal_strlit("away");
    let f = logo_file_name_spec(team, timestamp, extension);
    let p = logo_path_spec(team, f);
    assert(logo_url_spec(team, f) =~= "http://"@ + HTTP_ADDRESS@ + p);
    lemma_decimal_digits(timestamp as nat);
    let side = team_side(team);
    let digits = decimal(timestamp as nat);
    assert(side.len() == 4);
    assert forall|j: int| 0 <= j < side.len() implies side[j] != '/' && side[j] != '\\' && side[j]
        != ':' && side[j] != '.' by {
        match team {
            Team::Home(_) => {},
            Team::Away(_) => {},
        }
    }
    assert(f =~= side + "_"@ + digits + "."@ + extension);
    assert forall|i: int| 0 <= i < f.len() implies f[i] != '/' && f[i] != '\\' && f[i] != ':' by {
        if i < 4 {
            assert(f[i] == side[i]);
        } else if i == 4 {
        } else if i < 5 + digits.len() {
            assert(f[i] == digits[i - 5]);
        } else if i == 5 + digits.len() {
        } else {
            assert(f[i] == extension[i - 6 - digits.len()]);
        }
    }
    assert(f[0] == side[0]);
    assert(f != seq!['.']) by {
        if f.len() == 1 {
            assert(seq!['.'][0] == '.');
        }
    }
    assert(f != seq!['.', '.']) by {
        if f.len() == 2 {
            assert(seq!['.', '.'][0] == '.');
        }
    }
    assert(safe_file_name(f));
    assert(p =~= "/logos/"@ + side + "/"@ + f);
    assert(p.skip(12) =~= f);
    match team {
        Team::Home(_) => {
            assert(p.subrange(0, 12) =~= "/logos/home/"@);
        },
        Team::Away(_) => {
            assert(p.subrange(0, 12) =~= "/logos/away/"@);
            assert(p[7] != "/logos/home/"@[7]);
            assert(!has_prefix(p, "/logos/home/"@)) by {
                if has_prefix(p, "/logos/home/"@) {
                    assert(p.subrange(0, 12)[7] == p[7]);
                }
            }
        },
    }
}

} // verus!
