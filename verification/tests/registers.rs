use chocos::utils::mpu::MPU;
use chocos::utils::npriv::Npriv;

#[test]
fn privilege_is_bit_zero_of_control() {
    assert!(Npriv::is_privileged(0));
    assert!(!Npriv::is_privileged(1));
    assert!(Npriv::is_privileged(2));
    assert!(!Npriv::is_privileged(3));
    assert!(Npriv::is_privileged(0xFFFF_FFFE));
    assert!(!Npriv::is_privileged(u32::MAX));
}

#[test]
fn dropping_privilege_sets_bit_zero() {
    assert_eq!(Npriv::set_unprivileged(0), 1);
    assert_eq!(Npriv::set_unprivileged(1), 1);
    assert_eq!(Npriv::set_unprivileged(2), 3);
    assert_eq!(Npriv::set_unprivileged(0x8000_0006), 0x8000_0007);
    assert!(!Npriv::is_privileged(Npriv::set_unprivileged(2)));
}

#[test]
fn raising_privilege_clears_bit_zero() {
    assert_eq!(Npriv::set_privileged(0), 0);
    assert_eq!(Npriv::set_privileged(1), 0);
    assert_eq!(Npriv::set_privileged(3), 2);
    assert_eq!(Npriv::set_privileged(u32::MAX), 0xFFFF_FFFE);
    assert!(Npriv::is_privileged(Npriv::set_privileged(7)));
}

#[test]
fn arming_sets_the_enable_bit() {
    assert_eq!(MPU::arm(0), 1);
    assert_eq!(MPU::arm(1), 1);
    assert_eq!(MPU::arm(4), 5);
    assert_eq!(MPU::arm(0xFFFF_FFFE), u32::MAX);
}

#[test]
fn disarming_clears_the_enable_bit() {
    assert_eq!(MPU::disarm(0), 0);
    assert_eq!(MPU::disarm(1), 0);
    assert_eq!(MPU::disarm(5), 4);
    assert_eq!(MPU::disarm(u32::MAX), 0xFFFF_FFFE);
    assert_eq!(MPU::disarm(MPU::arm(6)), 6);
}
