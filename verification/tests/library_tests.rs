use axiom_sovereign_stack::cosmic_queue::{CosmicQueue, PacketFrame};
use axiom_sovereign_stack::ffi::aethelarch::checked_elems;
use axiom_sovereign_stack::primitives::{BcpScheduler, TscBedr, ZahIndex, ZcssRing};
use axiom_sovereign_stack::{
    act_bytes, quantize_activation_mask, AethelarchError, AethelarchMatrix, BssDecoder,
    BwpMsmAccumulator, EdgeAIPipeline, EncodeFailure, OrderPacket, PredatorGate,
};

fn home(key: u64) -> u64 {
    key.wrapping_mul(0x9E3779B97F4A7C15) & 63
}

#[test]
fn zah_index_rejects_zero_key() {
    let mut idx = ZahIndex::new();
    assert!(!idx.insert(0));
    assert!(!idx.contains(0));
    assert!(!idx.remove(0));
}

#[test]
fn zah_index_neighborhood_fills_after_eight_keys() {
    // Nine distinct keys sharing one home slot: only eight fit its neighborhood.
    let target = home(1);
    let mut keys = Vec::new();
    let mut k: u64 = 1;
    while keys.len() < 9 {
        if home(k) == target {
            keys.push(k);
        }
        k += 1;
    }
    let mut idx = ZahIndex::default();
    for &key in &keys[..8] {
        assert!(idx.insert(key));
    }
    assert!(!idx.insert(keys[8]));
    assert!(!idx.contains(keys[8]));
    for &key in &keys[..8] {
        assert!(idx.contains(key));
    }
    // Freeing one slot of the neighborhood makes room again.
    assert!(idx.remove(keys[3]));
    assert!(!idx.contains(keys[3]));
    assert!(idx.insert(keys[8]));
    assert!(idx.contains(keys[8]));
}

#[test]
fn zah_index_remove_undoes_insert() {
    let mut idx = ZahIndex::new();
    assert!(idx.insert(7));
    assert!(idx.insert(0xFFFF_FFFF_FFFF_FFFF));
    assert!(idx.remove(7));
    assert!(!idx.contains(7));
    assert!(idx.contains(0xFFFF_FFFF_FFFF_FFFF));
    assert!(!idx.remove(7));
}

#[test]
fn zah_index_keeps_duplicates() {
    let mut idx = ZahIndex::new();
    assert!(idx.insert(99));
    assert!(idx.insert(99));
    assert!(idx.remove(99));
    assert!(idx.contains(99));
    assert!(idx.remove(99));
    assert!(!idx.contains(99));
}

#[test]
fn zcss_ring_is_fifo_across_wraparound() {
    let mut ring = ZcssRing::new(3);
    let mut next_in = 0u32;
    let mut next_out = 0u32;
    for round in 0..10 {
        for _ in 0..(round % 3 + 1) {
            if ring.push(next_in).is_ok() {
                next_in += 1;
            }
        }
        for _ in 0..(round % 2 + 1) {
            if let Some(v) = ring.pop() {
                assert_eq!(v, next_out);
                next_out += 1;
            }
        }
    }
    while let Some(v) = ring.pop() {
        assert_eq!(v, next_out);
        next_out += 1;
    }
    assert_eq!(next_in, next_out);
}

#[test]
fn zcss_ring_full_returns_value() {
    let mut ring = ZcssRing::new(1);
    assert_eq!(ring.push("a"), Ok(()));
    assert_eq!(ring.push("b"), Err("b"));
    assert_eq!(ring.pop(), Some("a"));
    assert_eq!(ring.push("c"), Ok(()));
    assert_eq!(ring.pop(), Some("c"));
}

#[test]
fn zcss_ring_of_capacity_zero_refuses_everything() {
    let mut ring: ZcssRing<u8> = ZcssRing::new(0);
    assert_eq!(ring.push(1), Err(1));
    assert_eq!(ring.pop(), None);
}

#[test]
fn bcp_scheduler_ignores_levels_out_of_range() {
    let mut s = BcpScheduler::new();
    assert!(s.is_empty());
    assert_eq!(s.next_highest_priority(), None);
    assert_eq!(s.active_count(), 0);
    s.set_priority(64);
    s.set_priority(1000);
    assert!(s.is_empty());
    s.set_priority(63);
    s.set_priority(0);
    s.set_priority(0);
    assert_eq!(s.active_count(), 2);
    assert_eq!(s.next_highest_priority(), Some(63));
    s.clear_priority(64);
    s.clear_priority(63);
    assert_eq!(s.next_highest_priority(), Some(0));
    s.clear_priority(0);
    assert!(s.is_empty());
    assert_eq!(s.next_highest_priority(), None);
}

#[test]
fn tsc_bedr_retire_is_bounded() {
    let mut b = TscBedr::new();
    for i in 0..64usize {
        assert!(b.retire(0x1000 + i));
    }
    assert_eq!(b.pending(), 64);
    assert!(!b.retire(0x9999));
    assert_eq!(b.pending(), 64);
}

#[test]
fn tsc_bedr_reclaims_only_older_epochs() {
    let mut b = TscBedr::default();
    assert_eq!(b.current_epoch(), 1);
    assert!(b.retire(0x10)); // epoch 1
    assert!(b.retire(0x20)); // epoch 1
    assert_eq!(b.tick(), 2);
    assert!(b.retire(0x30)); // epoch 2
    assert_eq!(b.tick(), 3);
    assert!(b.retire(0x40)); // epoch 3
    assert_eq!(b.reclaim(1), 0);
    assert_eq!(b.reclaim(2), 2);
    assert_eq!(b.pending(), 2);
    assert_eq!(b.reclaim(2), 0);
    assert_eq!(b.reclaim(10), 2);
    assert_eq!(b.pending(), 0);
    assert_eq!(b.current_epoch(), 3);
}

#[test]
fn bss_decoder_flips_mask_and_is_involution() {
    let decoder = BssDecoder::new(8);
    let syndrome = vec![0xAAu8, 0x55, 0x00, 0xFF];
    let corrected = decoder.decode_syndrome(&syndrome);
    assert_eq!(corrected, vec![0xFF, 0x00, 0x55, 0xAA]);
    assert_eq!(decoder.decode_syndrome(&corrected), syndrome);
    assert_eq!(decoder.decode_syndrome(&[]), Vec::<u8>::new());
}

#[test]
fn bwp_windows_mask_low_bits() {
    let msm = BwpMsmAccumulator::new(4);
    assert_eq!(msm.scalar_windows(&[3, 7, 0x1F, 0xFFFF_FFFF_FFFF_FFF0]), vec![3, 7, 0xF, 0]);
    let none = BwpMsmAccumulator::new(0);
    assert_eq!(none.scalar_windows(&[5, 6]), vec![0, 0]);
    let wide = BwpMsmAccumulator::new(63);
    assert_eq!(wide.scalar_windows(&[u64::MAX]), vec![u64::MAX >> 1]);
}

#[test]
fn edge_ai_packs_codes_low_nibble_first() {
    assert_eq!(EdgeAIPipeline::pack_int4_codes(&[9, 6, 11, 7]), vec![0x69, 0x7B]);
    // An odd trailing code is paired with the code of 0.0.
    assert_eq!(EdgeAIPipeline::pack_int4_codes(&[3]), vec![0x83]);
    assert_eq!(EdgeAIPipeline::pack_int4_codes(&[0x1F, 0xF2]), vec![0x2F]);
    assert_eq!(EdgeAIPipeline::pack_int4_codes(&[]), Vec::<u8>::new());
}

#[test]
fn edge_ai_unpack_inverts_pack() {
    let codes: Vec<u8> = (0..17u8).map(|c| c % 16).collect();
    let packed = EdgeAIPipeline::pack_int4_codes(&codes);
    assert_eq!(packed.len(), 9);
    let unpacked = EdgeAIPipeline::unpack_int4_codes(&packed);
    assert_eq!(unpacked.len(), 18);
    assert_eq!(&unpacked[..17], &codes[..]);
    assert_eq!(unpacked[17], 8);
    assert_eq!(EdgeAIPipeline::unpack_int4_codes(&[0xA5]), vec![5, 10]);
}

#[test]
fn act_bytes_pads_to_64() {
    assert_eq!(act_bytes(0), 0);
    assert_eq!(act_bytes(1), 64);
    assert_eq!(act_bytes(512), 64);
    assert_eq!(act_bytes(513), 128);
    assert_eq!(act_bytes(4096), 512);
    assert_eq!(act_bytes(11008), 1408);
}

#[test]
fn checked_elems_errors() {
    assert_eq!(checked_elems(0, 3), Err(AethelarchError::InvalidDimensions { rows: 0, cols: 3 }));
    assert_eq!(checked_elems(3, 0), Err(AethelarchError::InvalidDimensions { rows: 3, cols: 0 }));
    assert_eq!(
        checked_elems(usize::MAX, 2),
        Err(AethelarchError::InvalidDimensions { rows: usize::MAX, cols: 2 })
    );
    assert_eq!(checked_elems(4, 5), Ok(20));
}

#[test]
fn matrix_construction_without_native_library() {
    assert_eq!(
        AethelarchMatrix::new(0, 4).err(),
        Some(AethelarchError::InvalidDimensions { rows: 0, cols: 4 })
    );
    assert_eq!(AethelarchMatrix::new(2, 3).err(), Some(AethelarchError::NativeUnavailable));
    assert_eq!(
        AethelarchMatrix::from_ternary(2, 3, &[1, 0, -1]).err(),
        Some(AethelarchError::WeightLengthMismatch { expected: 6, actual: 3 })
    );
    assert_eq!(
        AethelarchMatrix::from_ternary(2, 3, &[1, 0, -1, 0, 1, 1]).err(),
        Some(AethelarchError::NativeUnavailable)
    );
    assert_eq!(
        AethelarchMatrix::from_ternary(usize::MAX, 3, &[]).err(),
        Some(AethelarchError::InvalidDimensions { rows: usize::MAX, cols: 3 })
    );
    let unused = EncodeFailure::Unavailable;
    assert_ne!(unused, EncodeFailure::NativeReject);
}

#[test]
fn activation_mask_sets_positive_bits() {
    let mask = quantize_activation_mask(&[true, false, true, false, false, false, false, false, true]);
    assert_eq!(mask.len(), 64);
    assert_eq!(mask[0], 0b0000_0101);
    assert_eq!(mask[1], 0b0000_0001);
    assert!(mask[2..].iter().all(|&b| b == 0));
    assert_eq!(quantize_activation_mask(&[]).len(), 0);
}

#[test]
fn cosmic_queue_refuses_when_full_and_keeps_order() {
    let mut q = CosmicQueue::new(2);
    let f = |t: u64| PacketFrame { timestamp: t, payload: vec![t as u8] };
    assert!(q.push(f(1)).is_ok());
    assert!(q.push(f(2)).is_ok());
    let back = q.push(f(3)).unwrap_err();
    assert_eq!(back.timestamp, 3);
    assert_eq!(back.payload, vec![3]);
    assert_eq!(q.pop().map(|p| p.timestamp), Some(1));
    assert!(q.push(f(4)).is_ok());
    assert_eq!(q.pop().map(|p| p.timestamp), Some(2));
    assert_eq!(q.pop().map(|p| p.timestamp), Some(4));
    assert!(q.pop().is_none());
}

#[test]
fn predator_gate_rejects_own_signature_and_full_ring() {
    let mut gate = PredatorGate::new(7, 1);
    assert!(!gate.validate_order_packet(7));
    let bad = OrderPacket { order_id: 9, signature: 7, price: 1, volume: 1 };
    let back = gate.submit_order(bad).unwrap_err();
    assert_eq!(back.order_id, 9);
    assert!(gate.poll_next_order().is_none());
    let a = OrderPacket { order_id: 1, signature: 8, price: 10, volume: 2 };
    let b = OrderPacket { order_id: 2, signature: 9, price: 20, volume: 3 };
    assert!(gate.submit_order(a).is_ok());
    let refused = gate.submit_order(b).unwrap_err();
    assert_eq!(refused.order_id, 2);
    assert_eq!(gate.poll_next_order().map(|p| p.order_id), Some(1));
    assert!(gate.poll_next_order().is_none());
}

#[test]
fn error_messages_match_their_text() {
    assert_eq!(
        AethelarchError::InvalidDimensions { rows: 2, cols: 30 }.message(),
        "invalid matrix dimensions 2x30"
    );
    assert_eq!(
        AethelarchError::AllocationFailed { rows: 0, cols: 1234567 }.message(),
        "failed to allocate 0x1234567 Aethelarch matrix"
    );
    assert_eq!(
        AethelarchError::WeightLengthMismatch { expected: 6, actual: 10 }.message(),
        "ternary weight length mismatch: expected 6, got 10"
    );
    assert_eq!(
        AethelarchError::EncodeFailed { reason: EncodeFailure::NativeReject }.message(),
        "encode failed: NativeReject"
    );
    assert_eq!(AethelarchError::InvalidMatrix.message(), "invalid or null matrix handle");
    assert_eq!(
        AethelarchError::ActivationBufferTooShort { required: 64, actual: 9 }.message(),
        "activation buffer too short: need 64 bytes, got 9"
    );
    assert_eq!(
        AethelarchError::OutputBufferTooShort { required: usize::MAX, actual: 100 }.message(),
        format!("output buffer too short: need {} floats, got 100", usize::MAX)
    );
    assert_eq!(
        AethelarchError::NativeUnavailable.message(),
        "Aethelarch native library unavailable (build with --features aethelarch and link libaethelarch)"
    );
    assert_eq!(AethelarchError::GemvFailed.message(), "native gemv failed");
}

#[test]
fn edge_ai_pack_inverts_unpack() {
    let bytes: Vec<u8> = vec![0x00, 0x7B, 0xFF, 0x18];
    let codes = EdgeAIPipeline::unpack_int4_codes(&bytes);
    assert_eq!(EdgeAIPipeline::pack_int4_codes(&codes), bytes);
}
