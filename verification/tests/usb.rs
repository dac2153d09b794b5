use embedded2020::usb2;
use embedded2020::usbd::cdc::acm;
use embedded2020::usbd::ep::{self, bmAttributes, Address, SynchronizationType, UsageType, wMaxPacketSize};
use embedded2020::usbd::iface::{self, Class, CommunicationsSubclass};
use embedded2020::usbd::{bRequest, config, device, DescriptorType, Direction};

#[test]
fn device_descriptor_bytes() {
    let d = device::Desc {
        bcdUSB: device::bcdUSB::V20,
        bDeviceClass: 0xef,
        bDeviceSubClass: 2,
        bDeviceProtocol: 1,
        bMaxPacketSize0: device::bMaxPacketSize0::B64,
        idVendor: 0x2020,
        idProduct: 0x0309,
        bcdDevice: 0x0100,
        iManufacturer: 1,
        iProduct: 2,
        iSerialNumber: 0,
        bNumConfigurations: 1,
    };
    assert_eq!(
        d.bytes(),
        [18, 1, 0x00, 0x02, 0xef, 2, 1, 64, 0x20, 0x20, 0x09, 0x03, 0x00, 0x01, 1, 2, 0, 1]
    );
}

#[test]
fn config_descriptor_bytes() {
    let c = config::Desc {
        wTotalLength: 0x004b,
        bNumInterfaces: 2,
        bConfigurationValue: 1,
        iConfiguration: 0,
        bmAttributes: config::bmAttributes { self_powered: true, remote_wakeup: false },
        bMaxPower: 50,
    };
    assert_eq!(c.bytes(), [9, 2, 0x4b, 0x00, 2, 1, 0, 0xc0, 50]);
}

#[test]
fn endpoint_descriptor_bytes() {
    let e = ep::Desc {
        bEndpointAddress: Address { number: 1, direction: Direction::IN },
        bmAttributes: bmAttributes::Bulk,
        wMaxPacketSize: wMaxPacketSize::BulkControl { size: 64 },
        bInterval: 0,
    };
    assert_eq!(e.bytes(), [7, 5, 0x81, 0x02, 64, 0, 0]);

    let iso = ep::Desc {
        bEndpointAddress: Address { number: 2, direction: Direction::OUT },
        bmAttributes: bmAttributes::Isochronous {
            synchronization_type: SynchronizationType::Adaptive,
            usage_type: UsageType::FeedbackEndpoint,
        },
        wMaxPacketSize: wMaxPacketSize::IsochronousInterrupt { size: 1023, transactions_per_microframe: 2 },
        bInterval: 1,
    };
    assert_eq!(iso.bytes(), [7, 5, 0x02, 0x19, 0xff, 0x13, 1]);
}

#[test]
fn interface_and_cdc_descriptor_bytes() {
    let i = iface::Desc {
        bInterfaceNumber: 0,
        bAlternativeSetting: 0,
        bNumEndpoints: 1,
        bInterfaceClass: Class::Communications { subclass: CommunicationsSubclass::Acm },
        bInterfaceProtocol: 1,
        iInterface: 0,
    };
    assert_eq!(i.bytes(), [9, 4, 0, 0, 1, 0x02, 0x02, 1, 0]);

    let a = acm::Desc {
        bmCapabilities: acm::Capabilities {
            comm_features: false,
            line_serial: true,
            send_break: false,
            network_connection: false,
        },
    };
    assert_eq!(a.bytes(), [4, 0x24, 0x02, 0x02]);
}

#[test]
fn request_codes() {
    assert_eq!(bRequest::from(6), bRequest::GET_DESCRIPTOR);
    assert_eq!(bRequest::from(9), bRequest::SET_CONFIGURATION);
    assert_eq!(bRequest::from(2), bRequest::Reserved);
    assert_eq!(bRequest::from(0x22), bRequest::NonStandard(0x22));
}

#[test]
fn descriptor_types() {
    for b in 1u8..=8 {
        assert_eq!(DescriptorType::try_from(b).unwrap().byte(), b);
    }
    assert!(DescriptorType::try_from(0).is_err());
    assert!(DescriptorType::try_from(9).is_err());
}

#[test]
fn usb2_endpoint_transactions() {
    let e = usb2::ep::Desc {
        bEndpointAddress: usb2::ep::Address { number: 3, direction: Direction::IN },
        bmAttributes: usb2::ep::bmAttributes::Interrupt,
        wMaxPacketSize: usb2::ep::wMaxPacketSize::IsochronousInterrupt {
            size: 8,
            transactions_per_microframe: usb2::ep::Transactions::_3,
        },
        bInterval: 10,
    };
    assert_eq!(e.bytes(), [7, 5, 0x83, 0x03, 8, 0x10, 10]);
}
