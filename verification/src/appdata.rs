//! The bridge's data folder: where it lies and what it must hold before the
//! bridge starts.
use vstd::prelude::*;

verus! {

/// The folder that the bridge creates in the platform's data directory.
pub const DATA_FOLDER_NAME: &'static str = "ODCasterBridge";

/// The folder, inside the data folder, that uploaded logos go to.
pub const LOGOS_FOLDER_NAME: &'static str = "logos";

/// A folder the bridge needs.
#[derive(Clone, Copy, Debug, PartialEq, Eq, Structural)]
pub enum DataDir {
    /// The data folder itself.
    Root,
    /// `logos`.
    Logos,
    /// `logos/home`.
    HomeLogos,
    /// `logos/away`.
    AwayLogos,
}

impl DataDir {
    /// Whether the folder is created together with its missing parents: only
    /// the data folder is, the others are created inside it.
    pub fn creates_parents(&self) -> (b: bool)
        ensures
            b == (*self == DataDir::Root),
    {
        match self {
            DataDir::Root => true,
            _ => false,
        }
    }

    /// The folder's path inside the data folder, one name per level.
    pub fn components(&self) -> (c: Vec<&'static str>)
        ensures
            c@.map_values(|s: &'static str| s@) == match *self {
                DataDir::Root => Seq::<Seq<char>>::empty(),
                DataDir::Logos => seq![LOGOS_FOLDER_NAME@],
                DataDir::HomeLogos => seq![LOGOS_FOLDER_NAME@, "home"@],
                DataDir::AwayLogos => seq![LOGOS_FOLDER_NAME@, "away"@],
            },
    {
        let mut c: Vec<&'static str> = Vec::new();
        match self {
            DataDir::Root => {},
            DataDir::Logos => {
                c.push(LOGOS_FOLDER_NAME);
            },
            DataDir::HomeLogos => {
                c.push(LOGOS_FOLDER_NAME);
                c.push("home");
            },
            DataDir::AwayLogos => {
                c.push(LOGOS_FOLDER_NAME);
                c.push("away");
            },
        }
        assert(c@.map_values(|s: &'static str| s@) =~= match *self {
            DataDir::Root => Seq::<Seq<char>>::empty(),
            DataDir::Logos => seq![LOGOS_FOLDER_NAME@],
            DataDir::HomeLogos => seq![LOGOS_FOLDER_NAME@, "home"@],
            DataDir::AwayLogos => seq![LOGOS_FOLDER_NAME@, "away"@],
        });
        c
    }
}

/// The bridge's persistent data. Creating it makes sure its folders exist.
pub struct AppData {}

impl AppData {
    /// The folders to create when missing, parents first.
    pub fn data_dirs() -> (d: Vec<DataDir>)
        ensures
            d@ == seq![DataDir::Root, DataDir::Logos, DataDir::HomeLogos, DataDir::AwayLogos],
    {
        let mut d: Vec<DataDir> = Vec::new();
        d.push(DataDir::Root);
        d.push(DataDir::Logos);
        d.push(DataDir::HomeLogos);
        d.push(DataDir::AwayLogos);
        assert(d@ =~= seq![DataDir::Root, DataDir::Logos, DataDir::HomeLogos, DataDir::AwayLogos]);
        d
    }

    /// The bridge's data, once every folder of `data_dirs` exists
    /// (`data_ready`); the bridge cannot work without them.
    pub fn get_or_init(data_ready: bool) -> (d: AppData)
        requires
            data_ready,
    {
        AppData {}
    }
}

} // verus!
