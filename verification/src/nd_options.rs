//! The option list of a Neighbor Discovery message: options kept sorted by
//! code, with binary-search lookup, insertion, removal and decoding.
use vstd::prelude::*;
use vstd::std_specs::iter::IteratorSpec;
use crate::icmpv6::{
    IcmpV6Option, IcmpV6OptionCode, option_code_value, Icmpv6Type, icmpv6_type_of,
    lemma_icmpv6_type_value_roundtrip,
};
use crate::bytes::{be16, be32, spec_be16, spec_be32, usize_of, at};
use crate::sorted::{
    CodedOption, sorted_by_code, has_code, first_with_code, code_block, first, range_binsearch,
    insert_sorted, remove_at, remove_range, sort_by_code,
};

verus! {

/// The options of a message, kept sorted by option code.
#[derive(Debug, Clone)]
pub struct IcmpV6Options(Vec<IcmpV6Option>);

impl View for IcmpV6Options {
    type V = Seq<IcmpV6Option>;

    closed spec fn view(&self) -> Seq<IcmpV6Option> {
        self.0@
    }
}

impl IcmpV6Options {
    /// The list is sorted by option code.
    pub open spec fn wf(&self) -> bool {
        sorted_by_code(self@)
    }

    /// construct empty Options
    pub fn new() -> (r: Self)
        ensures
            r@ == Seq::<IcmpV6Option>::empty(),
            r.wf(),
    {
        IcmpV6Options(Vec::new())
    }

    /// Number of options held.
    pub fn len(&self) -> (n: usize)
        ensures
            n == self@.len(),
    {
        self.0.len()
    }

    /// The options in code order.
    pub fn as_slice(&self) -> (s: &[IcmpV6Option])
        ensures
            s@ == self@,
    {
        self.0.as_slice()
    }

    /// get the first element matching this option code
    pub fn get(&self, code: IcmpV6OptionCode) -> (r: Option<&IcmpV6Option>)
        requires
            self.wf(),
        ensures
            r is None <==> !has_code(self@, option_code_value(code)),
            r matches Some(o) ==> exists|i: int|
                first_with_code(self@, i, option_code_value(code)) && *o == #[trigger] self@[i],
    {
        let code_val: u8 = code.into();
        match first(self.0.as_slice(), code_val) {
            Some(i) => Some(&self.0[i]),
            None => None,
        }
    }

    /// get all elements matching this option code
    pub fn get_all(&self, code: IcmpV6OptionCode) -> (r: Option<&[IcmpV6Option]>)
        requires
            self.wf(),
        ensures
            r is None <==> !has_code(self@, option_code_value(code)),
            r matches Some(s) ==> exists|lo: int, hi: int|
                lo < hi && code_block(self@, lo, hi, option_code_value(code)) && s@
                    == #[trigger] self@.subrange(lo, hi),
    {
        let code_val: u8 = code.into();
        let sl = self.0.as_slice();
        match range_binsearch(sl, code_val) {
            Some(rg) => {
                let lo = rg.start;
                let hi = rg.end;
                Some(&sl[lo..hi])
            },
            None => None,
        }
    }

    /// insert a new option into the list of opts, before any option of the
    /// same code and after every option of a smaller code
    pub fn insert(&mut self, opt: IcmpV6Option)
        requires
            old(self).wf(),
        ensures
            final(self).wf(),
            exists|i: int|
                0 <= i <= old(self)@.len() && final(self)@ == old(self)@.insert(i, opt) && (forall|
                    j: int,
                | 0 <= j < i ==> #[trigger] old(self)@[j].spec_code() < opt.spec_code()) && (forall|
                    j: int,
                | i <= j < old(self)@.len() ==> #[trigger] old(self)@[j].spec_code()
                    >= opt.spec_code()),
    {
        insert_sorted(&mut self.0, opt);
    }

    /// get the first element matching this option code, for change in place
    pub fn get_mut(&mut self, code: IcmpV6OptionCode) -> (r: Option<&mut IcmpV6Option>)
        requires
            old(self).wf(),
        ensures
            r is None <==> !has_code(old(self)@, option_code_value(code)),
            r is None ==> final(self)@ == old(self)@,
            r matches Some(o) ==> exists|i: int|
                first_with_code(old(self)@, i, option_code_value(code)) && *o == #[trigger] old(
                    self,
                )@[i] && final(self)@ == old(self)@.update(i, *final(o)),
    {
        let code_val: u8 = code.into();
        match first(self.0.as_slice(), code_val) {
            Some(i) => Some(&mut self.0[i]),
            None => None,
        }
    }

    /// remove the first element with a matching option code
    pub fn remove(&mut self, code: IcmpV6OptionCode) -> (r: Option<IcmpV6Option>)
        requires
            old(self).wf(),
        ensures
            final(self).wf(),
            r is None <==> !has_code(old(self)@, option_code_value(code)),
            r is None ==> final(self)@ == old(self)@,
            r matches Some(o) ==> exists|i: int|
                first_with_code(old(self)@, i, option_code_value(code)) && o == #[trigger] old(
                    self,
                )@[i] && final(self)@ == old(self)@.remove(i),
    {
        let code_val: u8 = code.into();
        match first(self.0.as_slice(), code_val) {
            Some(i) => Some(remove_at(&mut self.0, i)),
            None => None,
        }
    }

    /// remove all elements with a matching option code, handing them back in
    /// list order
    pub fn remove_all(&mut self, code: IcmpV6OptionCode) -> (r: Option<Vec<IcmpV6Option>>)
        requires
            old(self).wf(),
        ensures
            final(self).wf(),
            r is None <==> !has_code(old(self)@, option_code_value(code)),
            r is None ==> final(self)@ == old(self)@,
            !has_code(final(self)@, option_code_value(code)),
            r matches Some(v) ==> exists|lo: int, hi: int|
                lo < hi && code_block(old(self)@, lo, hi, option_code_value(code)) && v@
                    == #[trigger] old(self)@.subrange(lo, hi) && final(self)@ == old(self)@.subrange(
                    0,
                    lo,
                ) + old(self)@.skip(hi),
    {
        let code_val: u8 = code.into();
        match range_binsearch(self.0.as_slice(), code_val) {
            Some(rg) => {
                let v = remove_range(&mut self.0, rg.start, rg.end, code_val);
                Some(v)
            },
            None => None,
        }
    }

    /// iterate over the options in code order
    pub fn iter(&self) -> (r: std::slice::Iter<'_, IcmpV6Option>)
        ensures
            r.remaining() == self@.as_ref(),
    {
        broadcast use vstd::std_specs::slice::axiom_spec_slice_iter;

        self.0.as_slice().iter()
    }

    /// Collect options into a list sorted by code.
    pub fn from_vec(opts: Vec<IcmpV6Option>) -> (r: Self)
        ensures
            r.wf(),
            r@.to_multiset() == opts@.to_multiset(),
    {
        IcmpV6Options(sort_by_code(opts))
    }

    /// The options, in code order, as an owned list.
    pub fn into_vec(self) -> (r: Vec<IcmpV6Option>)
        ensures
            r@ == self@,
    {
        self.0
    }
}

/// Reading ran past the end of the buffer.
#[derive(Debug, Clone, Copy, PartialEq, Eq, Structural)]
pub enum DecodeError {
    NotEnoughBytes,
}

/// The option (as code and body) that an option code byte and body decode
/// to: the option of that code with that body.
pub open spec fn decoded_option(code: u8, data: Seq<u8>) -> (u8, Seq<u8>) {
    (code, data)
}

/// The options (as code and body) read one after another from the front
/// of `d`, each a code byte, a length byte and that many body bytes, until
/// one does not fit; the bytes after that are ignored.
pub open spec fn spec_option_views(d: Seq<u8>) -> Seq<(u8, Seq<u8>)>
    decreases d.len(),
{
    if d.len() < 2 || d.len() < 2 + d[1] {
        seq![]
    } else {
        seq![decoded_option(d[0], d.subrange(2, 2 + d[1]))] + spec_option_views(d.skip(2 + d[1]))
    }
}

/// `opts` holds, in some order, exactly the options that `d` encodes.
pub open spec fn options_decoded_from(opts: Seq<IcmpV6Option>, d: Seq<u8>) -> bool {
    exists|raw: Seq<IcmpV6Option>|
        raw.map_values(|o: IcmpV6Option| o@) == spec_option_views(d) && #[trigger] opts.to_multiset()
            == raw.to_multiset()
}

impl IcmpV6Option {
    /// Decode one option from the front of `buf`, returning it and the
    /// number of bytes it took.
    pub fn decode(buf: &[u8]) -> (r: Result<(IcmpV6Option, usize), DecodeError>)
        ensures
            r is Ok <==> (buf@.len() >= 2 && buf@.len() >= 2 + buf@[1]),
            r matches Ok((o, n)) ==> n == 2 + buf@[1] && o@ == decoded_option(
                buf@[0],
                buf@.subrange(2, 2 + buf@[1]),
            ) && o@.0 == buf@[0],
    {
        if buf.len() < 2 {
            return Err(DecodeError::NotEnoughBytes);
        }
        let code = buf[0];
        let len = usize_of(buf[1]);
        if len > buf.len() - 2 {
            return Err(DecodeError::NotEnoughBytes);
        }
        let data = vstd::slice::slice_to_vec(&buf[2..2 + len]);
        let opt = if code == 1 {
            IcmpV6Option::SourceLinkLayerAddress(data)
        } else {
            IcmpV6Option::UnknownOption(code, data)
        };
        Ok((opt, 2 + len))
    }
}

impl IcmpV6Options {
    /// Decode options until one does not fit, then sort them by code.
    pub fn decode(buf: &[u8]) -> (r: Self)
        ensures
            r.wf(),
            options_decoded_from(r@, buf@),
    {
        let mut raw: Vec<IcmpV6Option> = Vec::new();
        let mut pos: usize = 0;
        let ghost all = spec_option_views(buf@);
        assert(buf@.skip(0) =~= buf@);
        loop
            invariant
                pos <= buf@.len(),
                raw@.map_values(|o: IcmpV6Option| o@) + spec_option_views(buf@.skip(at(pos)))
                    == all,
                all == spec_option_views(buf@),
            ensures
                raw@.map_values(|o: IcmpV6Option| o@) == all,
            decreases buf@.len() - pos,
        {
            let rest = &buf[pos..buf.len()];
            assert(rest@ == buf@.skip(at(pos)));
            match IcmpV6Option::decode(rest) {
                Ok((o, n)) => {
                    let ghost before = raw@;
                    raw.push(o);
                    proof {
                        let d = buf@.skip(at(pos));
                        assert(d.skip(at(n)) =~= buf@.skip(pos + n));
                        assert(raw@.map_values(|o: IcmpV6Option| o@) =~= before.map_values(
                            |o: IcmpV6Option| o@,
                        ).push(o@));
                        assert(spec_option_views(d) == seq![o@] + spec_option_views(d.skip(at(n))));
                        assert(raw@.map_values(|o: IcmpV6Option| o@) + spec_option_views(
                            buf@.skip(pos + n),
                        ) =~= before.map_values(|o: IcmpV6Option| o@) + spec_option_views(d));
                    }
                    pos = pos + n;
                },
                Err(_) => {
                    proof {
                        let d = buf@.skip(at(pos));
                        assert(spec_option_views(d) =~= Seq::<(u8, Seq<u8>)>::empty());
                        assert(raw@.map_values(|o: IcmpV6Option| o@) + spec_option_views(d)
                            =~= raw@.map_values(|o: IcmpV6Option| o@));
                    }
                    break ;
                },
            }
        }
        let ghost raw_s = raw@;
        let sorted = IcmpV6Options::from_vec(raw);
        assert(options_decoded_from(sorted@, buf@)) by {
            assert(raw_s.map_values(|o: IcmpV6Option| o@) == spec_option_views(buf@));
        }
        sorted
    }
}

/// Router Solicitation message (RFC 4861).
#[derive(Debug)]
pub struct RouterSolicitation {
    /// 8-bit message type (133 for RS)
    pub msg_type: Icmpv6Type,
    /// 8-bit message code (0 for RS)
    pub msg_code: u8,
    /// 16-bit checksum
    pub checksum: u16,
    /// 32-bit reserved field
    pub reserved: u32,
    /// variable-length options
    pub opts: IcmpV6Options,
}

impl RouterSolicitation {
    /// Decode a router solicitation: an 8-byte header, then its options.
    pub fn decode(buf: &[u8]) -> (r: Result<RouterSolicitation, DecodeError>)
        ensures
            r is Ok <==> buf@.len() >= 8,
            r matches Ok(m) ==> {
                &&& m.msg_type == icmpv6_type_of(buf@[0])
                &&& m.msg_code == buf@[1]
                &&& m.checksum == spec_be16(buf@[2], buf@[3])
                &&& m.reserved == spec_be32(buf@[4], buf@[5], buf@[6], buf@[7])
                &&& m.opts.wf()
                &&& options_decoded_from(m.opts@, buf@.skip(8))
            },
    {
        if buf.len() < 8 {
            return Err(DecodeError::NotEnoughBytes);
        }
        let rest = &buf[8..buf.len()];
        assert(rest@ == buf@.skip(8));
        Ok(RouterSolicitation {
            msg_type: Icmpv6Type::from(buf[0]),
            msg_code: buf[1],
            checksum: be16(buf[2], buf[3]),
            reserved: be32(buf[4], buf[5], buf[6], buf[7]),
            opts: IcmpV6Options::decode(rest),
        })
    }
}

/// Router Advertisement message (RFC 4861).
#[derive(Debug)]
pub struct RouterAdvertisement {
    /// 8-bit message type (134 for RA)
    pub msg_type: u8,
    /// 8-bit message code (0 for RA)
    pub msg_code: u8,
    /// 16-bit checksum
    pub checksum: u16,
    /// 8-bit current hop limit
    pub cur_hop_limit: u8,
    /// 8-bit flags: bit 0 managed address configuration (M), bit 1 other
    /// configuration (O), the rest reserved
    pub flags: u8,
    /// 16-bit router lifetime
    pub router_lifetime: u16,
    /// 32-bit reachable time
    pub reachable_time: u32,
    /// 32-bit retransmission timer
    pub retrans_timer: u32,
    /// variable-length options
    pub opts: IcmpV6Options,
}

impl RouterAdvertisement {
    /// Decode a router advertisement: a 16-byte header, then its options.
    pub fn decode(buf: &[u8]) -> (r: Result<RouterAdvertisement, DecodeError>)
        ensures
            r is Ok <==> buf@.len() >= 16,
            r matches Ok(m) ==> {
                &&& m.msg_type == buf@[0]
                &&& m.msg_code == buf@[1]
                &&& m.checksum == spec_be16(buf@[2], buf@[3])
                &&& m.cur_hop_limit == buf@[4]
                &&& m.flags == buf@[5]
                &&& m.router_lifetime == spec_be16(buf@[6], buf@[7])
                &&& m.reachable_time == spec_be32(buf@[8], buf@[9], buf@[10], buf@[11])
                &&& m.retrans_timer == spec_be32(buf@[12], buf@[13], buf@[14], buf@[15])
                &&& m.opts.wf()
                &&& options_decoded_from(m.opts@, buf@.skip(16))
            },
    {
        if buf.len() < 16 {
            return Err(DecodeError::NotEnoughBytes);
        }
        let rest = &buf[16..buf.len()];
        assert(rest@ == buf@.skip(16));
        Ok(RouterAdvertisement {
            msg_type: buf[0],
            msg_code: buf[1],
            checksum: be16(buf[2], buf[3]),
            cur_hop_limit: buf[4],
            flags: buf[5],
            router_lifetime: be16(buf[6], buf[7]),
            reachable_time: be32(buf[8], buf[9], buf[10], buf[11]),
            retrans_timer: be32(buf[12], buf[13], buf[14], buf[15]),
            opts: IcmpV6Options::decode(rest),
        })
    }
}

/// An ICMPv6 message, decoded as far as its type is understood.
pub enum Icmpv6Message {
    RouterSolicitation(RouterSolicitation),
    RouterAdvertisement(RouterAdvertisement),
    /// Any other message: its type byte and the whole message.
    Unassigned(u8, Vec<u8>),
}

impl Icmpv6Message {
    /// Decode a message: router solicitations are decoded in full; any
    /// other type is kept as its type byte and raw bytes.
    pub fn decode(buf: &[u8]) -> (r: Result<Icmpv6Message, DecodeError>)
        ensures
            buf@.len() == 0 ==> r is Err,
            buf@.len() > 0 && buf@[0] == 133 ==> (r is Ok <==> buf@.len() >= 8),
            buf@.len() > 0 && buf@[0] == 133 ==> (r matches Ok(m) ==> m is RouterSolicitation),
            buf@.len() > 0 && buf@[0] != 133 ==> (r matches Ok(Icmpv6Message::Unassigned(t, raw))
                && t == buf@[0] && raw@ == buf@),
    {
        if buf.len() < 1 {
            return Err(DecodeError::NotEnoughBytes);
        }
        let msg_type = Icmpv6Type::from(buf[0]);
        match msg_type {
            Icmpv6Type::RouterSolicitation => match RouterSolicitation::decode(buf) {
                Ok(rs) => Ok(Icmpv6Message::RouterSolicitation(rs)),
                Err(e) => Err(e),
            },
            other => {
                proof {
                    lemma_icmpv6_type_value_roundtrip(buf@[0]);
                }
                Ok(Icmpv6Message::Unassigned(u8::from(other), vstd::slice::slice_to_vec(buf)))
            },
        }
    }
}

} // verus!
