//! The comma-separated rendering of trajectories and the run
//! configuration.

use rk4_ode::config::Config;
use rk4_ode::csv::write_csv;
use rk4_ode::fixed::Fixed;
use rk4_ode::rk4::Sample;

#[test]
fn csv_of_one_sample() {
    let samples = vec![Sample {
        t: Fixed::zero(),
        state: vec![Fixed::zero(), Fixed::from_int(1).unwrap()],
    }];
    assert_eq!(
        write_csv(&samples),
        "t,v,x\n0.000000000,1.000000000,0.000000000\n"
    );
}

#[test]
fn csv_prints_sign_integer_part_and_nine_fraction_digits() {
    let samples = vec![
        Sample {
            t: Fixed::from_ratio(1, 100).unwrap(),
            state: vec![Fixed::from_ratio(-1, 4).unwrap(), Fixed::from_int(12).unwrap()],
        },
        Sample {
            t: Fixed::from_ratio(3, 2).unwrap(),
            state: vec![Fixed::from_int(-3).unwrap(), Fixed::from_ratio(5, 8).unwrap()],
        },
    ];
    // 1/100 is not on the 2^-32 grid: it truncates toward zero, and
    // its first nine fraction digits are 009999999.
    assert_eq!(
        write_csv(&samples),
        "t,v,x\n\
         0.009999999,12.000000000,-0.250000000\n\
         1.500000000,0.625000000,-3.000000000\n"
    );
}

#[test]
fn csv_of_no_samples_is_just_the_header() {
    let samples: Vec<Sample> = vec![];
    assert_eq!(write_csv(&samples), "t,v,x\n");
}

#[test]
fn config_paths_derive_from_the_title() {
    let cfg = Config::with_title(String::from("20260101-120000"));
    assert_eq!(cfg.title, "20260101-120000");
    assert_eq!(cfg.dir_name, "workspace/20260101-120000");
    assert_eq!(cfg.prog_name, "workspace/20260101-120000/ode");
    assert_eq!(cfg.specify_fig, "workspace/20260101-120000/img");
    assert_eq!(cfg.form, ".png");
}

#[test]
fn config_new_derives_from_its_own_title() {
    let cfg = Config::new().unwrap();
    assert_eq!(cfg.dir_name, format!("workspace/{}", cfg.title));
    assert_eq!(cfg.prog_name, format!("{}/ode", cfg.dir_name));
    assert_eq!(cfg.specify_fig, format!("{}/img", cfg.dir_name));
    assert_eq!(cfg.form, ".png");
}
