//! The catalogue of named MKS constants.

use vstd::prelude::*;

verus! {

/// The name of an MKS constant in the catalogue.
#[derive(Clone, Copy, Debug, PartialEq, Eq, Structural)]
pub enum Name {
    /// The speed of light constant.
    SpeedOfLight,
    /// The gravitational constant constant.
    GravitationalConstant,
    /// The plancks constant h constant.
    PlancksConstantH,
    /// The plancks constant h bar constant.
    PlancksConstantHBar,
    /// The astronomical unit constant.
    AstronomicalUnit,
    /// The light year constant.
    LightYear,
    /// The parsec constant.
    Parsec,
    /// The grav accel constant.
    GravAccel,
    /// The electron volt constant.
    ElectronVolt,
    /// The mass electron constant.
    MassElectron,
    /// The mass muon constant.
    MassMuon,
    /// The mass proton constant.
    MassProton,
    /// The mass neutron constant.
    MassNeutron,
    /// The rydberg constant.
    Rydberg,
    /// The boltzmann constant.
    Boltzmann,
    /// The molar gas constant.
    MolarGas,
    /// The standard gas volume constant.
    StandardGasVolume,
    /// The second constant.
    Second,
    /// The minute constant.
    Minute,
    /// The hour constant.
    Hour,
    /// The day constant.
    Day,
    /// The week constant.
    Week,
    /// The meter constant.
    Meter,
    /// The inch constant.
    Inch,
    /// The foot constant.
    Foot,
    /// The yard constant.
    Yard,
    /// The mile constant.
    Mile,
    /// The nautical mile constant.
    NauticalMile,
    /// The fathom constant.
    Fathom,
    /// The mil constant.
    Mil,
    /// The point constant.
    Point,
    /// The textpoint constant.
    Textpoint,
    /// The micron constant.
    Micron,
    /// The angstrom constant.
    Angstrom,
    /// The hectare constant.
    Hectare,
    /// The acre constant.
    Acre,
    /// The barn constant.
    Barn,
    /// The liter constant.
    Liter,
    /// The us gallon constant.
    UsGallon,
    /// The quart constant.
    Quart,
    /// The pint constant.
    Pint,
    /// The cup constant.
    Cup,
    /// The fluid ounce constant.
    FluidOunce,
    /// The tablespoon constant.
    Tablespoon,
    /// The teaspoon constant.
    Teaspoon,
    /// The canadian gallon constant.
    CanadianGallon,
    /// The uk gallon constant.
    UkGallon,
    /// The miles per hour constant.
    MilesPerHour,
    /// The kilometers per hour constant.
    KilometersPerHour,
    /// The knot constant.
    Knot,
    /// The kilogram constant.
    Kilogram,
    /// The pound mass constant.
    PoundMass,
    /// The ounce mass constant.
    OunceMass,
    /// The ton constant.
    Ton,
    /// The metric ton constant.
    MetricTon,
    /// The uk ton constant.
    UkTon,
    /// The troy ounce constant.
    TroyOunce,
    /// The carat constant.
    Carat,
    /// The unified atomic mass constant.
    UnifiedAtomicMass,
    /// The gram force constant.
    GramForce,
    /// The pound force constant.
    PoundForce,
    /// The kilopound force constant.
    KilopoundForce,
    /// The poundal constant.
    Poundal,
    /// The calorie constant.
    Calorie,
    /// The btu constant.
    Btu,
    /// The therm constant.
    Therm,
    /// The horsepower constant.
    Horsepower,
    /// The bar constant.
    Bar,
    /// The std atmosphere constant.
    StdAtmosphere,
    /// The torr constant.
    Torr,
    /// The meter of mercury constant.
    MeterOfMercury,
    /// The inch of mercury constant.
    InchOfMercury,
    /// The inch of water constant.
    InchOfWater,
    /// The psi constant.
    Psi,
    /// The poise constant.
    Poise,
    /// The stokes constant.
    Stokes,
    /// The stilb constant.
    Stilb,
    /// The lumen constant.
    Lumen,
    /// The lux constant.
    Lux,
    /// The phot constant.
    Phot,
    /// The footcandle constant.
    Footcandle,
    /// The lambert constant.
    Lambert,
    /// The footlambert constant.
    Footlambert,
    /// The curie constant.
    Curie,
    /// The roentgen constant.
    Roentgen,
    /// The rad constant.
    Rad,
    /// The solar mass constant.
    SolarMass,
    /// The bohr radius constant.
    BohrRadius,
    /// The newton constant.
    Newton,
    /// The dyne constant.
    Dyne,
    /// The joule constant.
    Joule,
    /// The erg constant.
    Erg,
    /// The stefan bolzmann constant constant.
    StefanBolzmannConstant,
    /// The thomson cross section constant.
    ThomsonCrossSection,
    /// The bohr magneton constant.
    BohrMagneton,
    /// The nuclear magneton constant.
    NuclearMagneton,
    /// The electron magnetic moment constant.
    ElectronMagneticMoment,
    /// The photon magnetic moment constant.
    PhotonMagneticMoment,
    /// The faraday constant.
    Faraday,
    /// The electron charge constant.
    ElectronCharge,
    /// The vacuum permittivity constant.
    VacuumPermittivity,
    /// The vacuum permeability constant.
    VacuumPermeability,
    /// The debye constant.
    Debye,
    /// The gauss constant.
    Gauss,
}

} // verus!
