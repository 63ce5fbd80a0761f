use daisy_embassy::audio::{AudioConfig, BoardRevision, Interface, OverrunPolicy, StreamState};
use daisy_embassy::flash::Flash;
use daisy_embassy::sdram::sdram_mpu_region;

#[test]
fn first_test() -> Result<(), &'static str> {
    let audio = Interface::new(
        BoardRevision::Seed11,
        AudioConfig::default(),
        49_152_000,
        OverrunPolicy::Fatal,
    );
    if audio.state() != StreamState::Unconfigured {
        return Err("audio interface not fresh");
    }
    let _flash = Flash::init();
    let _region = sdram_mpu_region();
    Ok(())
}
