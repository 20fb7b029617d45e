use crate::frame::PingTarget;
use vstd::prelude::*;

verus! {

/// The port that a fresh configuration pings.
pub const DEFAULT_PING_PORT: u16 = 25565;

/// The settings that are kept between runs.
#[derive(Clone, Debug)]
pub struct AppData {
    /// The directory under which the server installations lie.
    pub working_dir: String,
    /// The host to ping.
    pub ping_address: String,
    /// The port to ping.
    pub ping_port: u16,
}

impl AppData {
    /// A copy with the same three settings.
    pub fn duplicate(&self) -> (r: AppData)
        ensures
            r == *self,
    {
        AppData {
            working_dir: self.working_dir.clone(),
            ping_address: self.ping_address.clone(),
            ping_port: self.ping_port,
        }
    }

    /// The server that these settings point at, unless its address is empty or
    /// too long to be framed.
    pub fn ping_target(&self) -> (r: Option<PingTarget>)
        ensures
            match r {
                Some(t) => t.wf() && t.address == self.ping_address && t.port == self.ping_port,
                None => !(PingTarget { address: self.ping_address, port: self.ping_port }).wf(),
            },
    {
        PingTarget::new(self.ping_address.clone(), self.ping_port)
    }
}

/// The kinds of system that keep their application data in different places.
#[derive(Clone, Copy, Debug, PartialEq, Eq, Structural)]
pub enum Platform {
    /// The base directory is the one that `APPDATA` names.
    Windows,
    /// The base directory is the user's home directory.
    MacOs,
    /// The base directory is the user's home directory.
    Unix,
}

/// The names of the directories that lead from a platform's base directory to
/// the default working directory, outermost first.
pub open spec fn working_dir_segments(platform: Platform) -> Seq<Seq<char>> {
    match platform {
        Platform::Windows => seq!["minecraft-servers"@],
        Platform::MacOs => seq!["Library/Application Support"@, "minecraft-servers"@],
        Platform::Unix => seq![".minecraft"@, "minecraft-servers"@],
    }
}

/// The path, relative to the platform's base directory, of the default working
/// directory, one entry for each part to be joined to the base.
pub fn default_dir_segments(platform: Platform) -> (segments: Vec<String>)
    ensures
        segments@.len() == working_dir_segments(platform).len(),
        forall|i: int|
            0 <= i < segments@.len() ==> (#[trigger] segments@[i])@ == working_dir_segments(
                platform,
            )[i],
{
    let mut segments: Vec<String> = Vec::new();
    match platform {
        Platform::Windows => {},
        Platform::MacOs => {
            segments.push("Library/Application Support".to_owned());
        },
        Platform::Unix => {
            segments.push(".minecraft".to_owned());
        },
    }
    segments.push("minecraft-servers".to_owned());
    segments
}

/// The settings of a first run: the given working directory, and the local
/// host on the default port as the server to ping.
pub fn get_default_data(working_dir: String) -> (data: AppData)
    ensures
        data.working_dir == working_dir,
        data.ping_address@ == "localhost"@,
        data.ping_port == DEFAULT_PING_PORT,
{
    AppData {
        working_dir,
        ping_address: "localhost".to_owned(),
        ping_port: DEFAULT_PING_PORT,
    }
}

/// The settings as the running program holds them: absent until they were
/// loaded or saved once.
#[derive(Debug)]
pub struct AppState {
    pub data: Option<AppData>,
}

impl AppState {
    /// A state that holds no settings yet.
    pub fn new() -> (state: AppState)
        ensures
            state.data is None,
    {
        AppState { data: None }
    }

    /// The settings held, if any, as a copy.
    pub fn current(&self) -> (r: Option<AppData>)
        ensures
            r == self.data,
    {
        match &self.data {
            Some(data) => Some(data.duplicate()),
            None => None,
        }
    }

    /// Holds `data` from now on, in place of what was held before.
    pub fn store(&mut self, data: AppData)
        ensures
            final(self).data == Some(data),
    {
        self.data = Some(data);
    }

    /// The address and port to ping. `None` where no settings are held.
    pub fn ping_endpoint(&self) -> (r: Option<(String, u16)>)
        ensures
            r == match self.data {
                Some(data) => Some((data.ping_address, data.ping_port)),
                None => None,
            },
    {
        match &self.data {
            Some(data) => Some((data.ping_address.clone(), data.ping_port)),
            None => None,
        }
    }
}

} // verus!
