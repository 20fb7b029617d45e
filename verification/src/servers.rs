use vstd::prelude::*;

verus! {

/// One server installation, as the list of servers shows it.
#[derive(Clone, Debug)]
pub struct Server {
    /// The name of the installation's directory.
    pub name: String,
    /// The server software.
    pub engine: String,
    /// The game version.
    pub version: String,
    /// The full path of the installation's directory.
    pub location: String,
    /// When the directory was last changed, as an RFC 3339 timestamp.
    pub last_played: String,
    /// How many players have data in the installation's world.
    pub players: i32,
}

/// Whether a path names a directory, from what the file system says of it: that
/// something exists there, and that it is a directory.
pub fn dir_exists(exists: bool, is_dir: bool) -> (r: bool)
    ensures
        r == (exists && is_dir),
{
    exists && is_dir
}

/// The bytes of `dat`, the extension of a player's data file.
pub open spec fn player_extension() -> Seq<u8> {
    seq![0x64u8, 0x61u8, 0x74u8]
}

/// Whether a directory entry with this extension, if it has any, is a player's
/// data file.
pub open spec fn is_player_file(extension: Option<String>) -> bool {
    match extension {
        Some(ext) => vstd::utf8::encode_utf8(ext@) == player_extension(),
        None => false,
    }
}

/// How many of the entries are player data files.
pub open spec fn player_files(extensions: Seq<Option<String>>) -> nat
    decreases extensions.len(),
{
    if extensions.len() == 0 {
        0
    } else {
        player_files(extensions.drop_last()) + if is_player_file(extensions.last()) {
            1nat
        } else {
            0nat
        }
    }
}

fn has_player_extension(extension: &Option<String>) -> (r: bool)
    ensures
        r == is_player_file(*extension),
{
    match extension {
        Some(ext) => {
            let bytes = ext.as_str().as_bytes();
            let r = bytes.len() == 3 && bytes[0] == 0x64 && bytes[1] == 0x61 && bytes[2] == 0x74;
            proof {
                if r {
                    assert(bytes@ =~= player_extension());
                }
            }
            r
        },
        None => false,
    }
}

/// Counts the players of an installation from the extensions of the entries of
/// its player data directory, one per entry: those that are `dat`.
pub fn count_players(extensions: &[Option<String>]) -> (count: i32)
    requires
        extensions.len() <= i32::MAX,
    ensures
        count == player_files(extensions@),
{
    let mut count: i32 = 0;
    let mut i: usize = 0;
    while i < extensions.len()
        invariant
            i <= extensions.len() <= i32::MAX,
            count == player_files(extensions@.take(i as int)),
            count <= i,
        decreases extensions.len() - i,
    {
        proof {
            assert(extensions@.take(i + 1).drop_last() =~= extensions@.take(i as int));
            assert(extensions@.take(i + 1).last() == extensions@[i as int]);
        }
        if has_player_extension(&extensions[i]) {
            count += 1;
        }
        i += 1;
    }
    assert(extensions@.take(i as int) =~= extensions@);
    count
}

/// The entry of an installation in the list of servers. Engine and version are
/// not detected yet: every installation is listed as Vanilla 1.21.10.
pub fn server_entry(name: String, location: String, last_played: String, players: i32) -> (s: Server)
    ensures
        s.name == name,
        s.engine@ == "Vanilla"@,
        s.version@ == "1.21.10"@,
        s.location == location,
        s.last_played == last_played,
        s.players == players,
{
    Server {
        name,
        engine: "Vanilla".to_owned(),
        version: "1.21.10".to_owned(),
        location,
        last_played,
        players,
    }
}

/// The RFC 3339 text, in UTC, of the instant that lies `secs` seconds and
/// `nanos` nanoseconds after the Unix epoch; `None` where the calendar of the
/// chrono crate does not reach that far or `nanos` is no valid fraction.
pub uninterp spec fn rfc3339_text(secs: i64, nanos: u32) -> Option<Seq<char>>;

/// Calls `chrono::DateTime::from_timestamp` and, on the instant it gives,
/// `chrono::DateTime::to_rfc3339`. Believed, not proved: that the text depends on
/// the two numbers alone, as does whether there is one. `from_timestamp` returns
/// `None` on an instant out of range; `to_rfc3339` writes into a `String` and
/// does not fail.
#[verifier::external_body]
fn utc_rfc3339(secs: i64, nanos: u32) -> (r: Option<String>)
    ensures
        match r {
            Some(text) => rfc3339_text(secs, nanos) == Some(text@),
            None => rfc3339_text(secs, nanos) is None,
        },
{
    match chrono::DateTime::from_timestamp(secs, nanos) {
        Some(instant) => Some(instant.to_rfc3339()),
        None => None,
    }
}

/// The entry of an installation whose directory was last changed `secs`
/// seconds and `nanos` nanoseconds after the Unix epoch. `None` where that
/// instant has no RFC 3339 text.
pub fn describe_server(name: String, location: String, secs: i64, nanos: u32, players: i32) -> (r:
    Option<Server>)
    ensures
        match r {
            Some(s) => {
                &&& rfc3339_text(secs, nanos) == Some(s.last_played@)
                &&& s.name == name
                &&& s.engine@ == "Vanilla"@
                &&& s.version@ == "1.21.10"@
                &&& s.location == location
                &&& s.players == players
            },
            None => rfc3339_text(secs, nanos) is None,
        },
{
    match utc_rfc3339(secs, nanos) {
        Some(last_played) => Some(server_entry(name, location, last_played, players)),
        None => None,
    }
}

} // verus!
